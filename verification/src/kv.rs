//! The versioned key-value protocol over the session store's shards.
//!
//! A read scans from the current epoch down to 0 for the newest shard
//! holding the field, relocates what it finds into the current shard (and
//! persists the caller's default on a miss), and returns it. A write
//! merges into the shard of `epoch + 1`, so it stays invisible to readers
//! until the epoch is advanced.

use vstd::prelude::*;

use crate::session::{fields_unique, spec_fields_get, spec_find_session, spec_find_shard,
    spec_increment_epoch, wf, SessionStore, Shard, ShardEntry};
use crate::value::{Column, MergeOp, NamedValue, Value, ValueKind, ValueView};
use crate::WorkerError;

verus! {

/// The value of `field` in the shard of `tok` at epoch index `ep`.
pub open spec fn spec_shard_field(
    st: SessionStore,
    tok: Seq<char>,
    ep: int,
    field: Seq<char>,
) -> Option<Value> {
    match spec_find_shard(st.shards@, tok, ep) {
        Option::Some(e) => spec_fields_get(e.data.fields@, field),
        Option::None => Option::None,
    }
}

/// The visible value of `field` at epoch `ep`: the current shard first,
/// then the newest prior epoch holding a value for the field.
pub open spec fn spec_kv_lookup(
    st: SessionStore,
    tok: Seq<char>,
    field: Seq<char>,
    ep: nat,
) -> Option<Value>
    decreases ep,
{
    match spec_shard_field(st, tok, ep as int, field) {
        Option::Some(v) => Option::Some(v),
        Option::None => if ep == 0 {
            Option::None
        } else {
            spec_kv_lookup(st, tok, field, (ep - 1) as nat)
        },
    }
}

/// The epoch index whose shard supplies the visible value, if any.
pub open spec fn spec_kv_found(
    st: SessionStore,
    tok: Seq<char>,
    field: Seq<char>,
    ep: nat,
) -> Option<int>
    decreases ep,
{
    if spec_shard_field(st, tok, ep as int, field) is Some {
        Option::Some(ep as int)
    } else if ep == 0 {
        Option::None
    } else {
        spec_kv_found(st, tok, field, (ep - 1) as nat)
    }
}

/// What a read returns: the visible value, or the caller's default.
pub open spec fn spec_kv_read(
    st: SessionStore,
    tok: Seq<char>,
    field: Seq<char>,
    ep: nat,
    default: Value,
) -> Value {
    match spec_kv_lookup(st, tok, field, ep) {
        Option::Some(v) => v,
        Option::None => default,
    }
}

/// The found epoch always carries the visible value.
pub proof fn lemma_found_lookup(st: SessionStore, tok: Seq<char>, field: Seq<char>, ep: nat)
    ensures
        spec_kv_found(st, tok, field, ep) matches Option::Some(es) ==> 0 <= es <= ep
            && spec_kv_lookup(st, tok, field, ep) == spec_shard_field(st, tok, es, field)
            && spec_shard_field(st, tok, es, field) is Some,
        spec_kv_found(st, tok, field, ep) is None ==> spec_kv_lookup(st, tok, field, ep) is None,
    decreases ep,
{
    if ep > 0 && spec_shard_field(st, tok, ep as int, field) is None {
        lemma_found_lookup(st, tok, field, (ep - 1) as nat);
    }
}

/// Two stores that agree on every shard slot of `field` up to `ep` agree
/// on the visible value at `ep`.
pub proof fn lemma_kv_lookup_same(
    pre: SessionStore,
    post: SessionStore,
    tok: Seq<char>,
    field: Seq<char>,
    ep: nat,
)
    requires
        forall|e2: int|
            0 <= e2 <= ep ==> #[trigger] spec_shard_field(post, tok, e2, field)
                == spec_shard_field(pre, tok, e2, field),
    ensures
        spec_kv_lookup(post, tok, field, ep) == spec_kv_lookup(pre, tok, field, ep),
    decreases ep,
{
    if ep > 0 && spec_shard_field(pre, tok, ep as int, field) is None {
        lemma_kv_lookup_same(pre, post, tok, field, (ep - 1) as nat);
    }
}

/// A first match with a clear prefix is what the field finder returns.
proof fn lemma_fields_get_at(fs: Seq<NamedValue>, i: int)
    requires
        0 <= i < fs.len(),
        forall|j: int| 0 <= j < i ==> fs[j].key@ != fs[i].key@,
    ensures
        spec_fields_get(fs, fs[i].key@) == Option::Some(fs[i].val),
    decreases fs.len(),
{
    if i > 0 {
        assert(fs.drop_first()[i - 1] == fs[i]);
        assert forall|j: int| #![trigger fs.drop_first()[j]] 0 <= j < i - 1 implies fs.drop_first()[
            j
        ].key@ != fs.drop_first()[i - 1].key@ by {
            assert(fs.drop_first()[j] == fs[j + 1]);
        }
        lemma_fields_get_at(fs.drop_first(), i - 1);
    }
}

/// The field finder misses only when no entry holds the key.
proof fn lemma_fields_get_none(fs: Seq<NamedValue>, key: Seq<char>)
    requires
        forall|j: int| 0 <= j < fs.len() ==> fs[j].key@ != key,
    ensures
        spec_fields_get(fs, key) is None,
    decreases fs.len(),
{
    if fs.len() > 0 {
        assert forall|j: int| #![trigger fs.drop_first()[j]] 0 <= j < fs.drop_first().len() implies fs.drop_first()[
            j
        ].key@ != key by {
            assert(fs.drop_first()[j] == fs[j + 1]);
        }
        lemma_fields_get_none(fs.drop_first(), key);
    }
}

/// Updating one field entry in place rewires only its own key's lookup.
proof fn lemma_fields_get_update_other(fs: Seq<NamedValue>, i: int, nv: NamedValue, k2: Seq<char>)
    requires
        0 <= i < fs.len(),
        nv.key@ == fs[i].key@,
        k2 != nv.key@,
    ensures
        spec_fields_get(fs.update(i, nv), k2) == spec_fields_get(fs, k2),
    decreases fs.len(),
{
    let post = fs.update(i, nv);
    if i == 0 {
        assert(post[0] == nv);
        assert(post.drop_first() =~= fs.drop_first());
    } else {
        assert(post[0] == fs[0]);
        assert(post.drop_first() =~= fs.drop_first().update(i - 1, nv));
        if fs[0].key@ != k2 {
            lemma_fields_get_update_other(fs.drop_first(), i - 1, nv, k2);
        }
    }
}

/// Appending a fresh key leaves every other key's lookup alone.
proof fn lemma_fields_get_push_other(fs: Seq<NamedValue>, nv: NamedValue, k2: Seq<char>)
    requires
        k2 != nv.key@,
    ensures
        spec_fields_get(fs.push(nv), k2) == spec_fields_get(fs, k2),
    decreases fs.len(),
{
    if fs.len() == 0 {
        assert(fs.push(nv)[0] == nv);
        assert(fs.push(nv).drop_first() =~= fs);
        assert(spec_fields_get(fs.push(nv), k2) == spec_fields_get(fs.push(nv).drop_first(), k2));
    } else {
        assert(fs.push(nv)[0] == fs[0]);
        assert(fs.push(nv).drop_first() =~= fs.drop_first().push(nv));
        lemma_fields_get_push_other(fs.drop_first(), nv, k2);
    }
}

/// Removing one field entry rewires only its own key's lookup.
proof fn lemma_fields_get_remove_other(fs: Seq<NamedValue>, i: int, k2: Seq<char>)
    requires
        0 <= i < fs.len(),
        k2 != fs[i].key@,
    ensures
        spec_fields_get(fs.remove(i), k2) == spec_fields_get(fs, k2),
    decreases fs.len(),
{
    if i == 0 {
        assert(fs.remove(0) =~= fs.drop_first());
    } else {
        assert(fs.remove(i)[0] == fs[0]);
        assert(fs.remove(i).drop_first() =~= fs.drop_first().remove(i - 1));
        if fs[0].key@ != k2 {
            lemma_fields_get_remove_other(fs.drop_first(), i - 1, k2);
        }
    }
}

/// A field entry present in the list makes its key's lookup a hit.
proof fn lemma_fields_entry_found(fs: Seq<NamedValue>, j: int)
    requires
        0 <= j < fs.len(),
    ensures
        spec_fields_get(fs, fs[j].key@) is Some,
    decreases fs.len(),
{
    if fs[0].key@ != fs[j].key@ {
        assert(fs.drop_first()[j - 1] == fs[j]);
        lemma_fields_entry_found(fs.drop_first(), j - 1);
    }
}

/// The position of `key` among a shard's fields, tied to the finder.
fn fields_index(fs: &Vec<NamedValue>, key: &String) -> (r: Option<usize>)
    ensures
        match r {
            Option::Some(i) => i < fs@.len() && fs@[i as int].key@ == key@ && spec_fields_get(
                fs@,
                key@,
            ) == Option::Some(fs@[i as int].val),
            Option::None => spec_fields_get(fs@, key@) is None,
        },
{
    let mut i: usize = 0;
    while i < fs.len()
        invariant
            i <= fs@.len(),
            forall|j: int| 0 <= j < i ==> fs@[j].key@ != key@,
        decreases fs@.len() - i,
    {
        if fs[i].key == *key {
            proof {
                lemma_fields_get_at(fs@, i as int);
            }
            return Some(i);
        }
        i = i + 1;
    }
    proof {
        lemma_fields_get_none(fs@, key@);
    }
    None
}

/// Sets `key` to `val` in a shard's fields, keeping keys unique.
fn fields_set(fs: &mut Vec<NamedValue>, key: &String, val: Value)
    requires
        fields_unique(old(fs)@),
    ensures
        fields_unique(final(fs)@),
        forall|k2: Seq<char>|
            #![trigger spec_fields_get(final(fs)@, k2)]
            spec_fields_get(final(fs)@, k2) == if k2 == key@ {
                Option::Some(val)
            } else {
                spec_fields_get(old(fs)@, k2)
            },
{
    match fields_index(fs, key) {
        Option::Some(i) => {
            let nv = NamedValue { key: fs[i].key.clone(), val };
            fs.remove(i);
            fs.insert(i, nv);
            proof {
                let pre = old(fs)@;
                assert(fs@ =~= pre.update(i as int, nv));
                lemma_fields_get_at(fs@, i as int);
                assert forall|k2: Seq<char>|
                    #![trigger spec_fields_get(fs@, k2)]
                    k2 != key@ implies spec_fields_get(fs@, k2) == spec_fields_get(pre, k2) by {
                    lemma_fields_get_update_other(pre, i as int, nv, k2);
                }
                assert forall|a: int, b: int|
                    0 <= a < b < fs@.len() implies fs@[a].key@ != fs@[b].key@ by {
                    assert(pre[a].key@ != pre[b].key@);
                }
            }
        },
        Option::None => {
            let nv = NamedValue { key: key.clone(), val };
            fs.push(nv);
            proof {
                let pre = old(fs)@;
                assert forall|j: int| #![trigger pre[j]] 0 <= j < pre.len() implies pre[j].key@
                    != nv.key@ by {
                    if pre[j].key@ == nv.key@ {
                        lemma_fields_entry_found(pre, j);
                    }
                }
                lemma_fields_get_at(fs@, pre.len() as int);
                assert forall|k2: Seq<char>|
                    #![trigger spec_fields_get(fs@, k2)]
                    k2 != key@ implies spec_fields_get(fs@, k2) == spec_fields_get(pre, k2) by {
                    lemma_fields_get_push_other(pre, nv, k2);
                }
                assert forall|a: int, b: int|
                    0 <= a < b < fs@.len() implies fs@[a].key@ != fs@[b].key@ by {
                    if b < pre.len() {
                        assert(fs@[a] == pre[a] && fs@[b] == pre[b]);
                    } else {
                        assert(fs@[a] == pre[a] && fs@[b] == nv);
                    }
                }
            }
        },
    }
}

/// Takes `key` out of a shard's fields, returning exactly what was
/// stored there, if anything.
fn fields_take(fs: &mut Vec<NamedValue>, key: &String) -> (r: Option<Value>)
    requires
        fields_unique(old(fs)@),
    ensures
        fields_unique(final(fs)@),
        r == spec_fields_get(old(fs)@, key@),
        forall|k2: Seq<char>|
            #![trigger spec_fields_get(final(fs)@, k2)]
            spec_fields_get(final(fs)@, k2) == if k2 == key@ {
                Option::<Value>::None
            } else {
                spec_fields_get(old(fs)@, k2)
            },
{
    match fields_index(fs, key) {
        Option::None => None,
        Option::Some(i) => {
            let nv = fs.remove(i);
            proof {
                let pre = old(fs)@;
                assert forall|j: int| #![trigger fs@[j]] 0 <= j < fs@.len() implies fs@[j].key@
                    != key@ by {
                    if j < i {
                        assert(fs@[j] == pre[j]);
                    } else {
                        assert(fs@[j] == pre[j + 1]);
                    }
                }
                lemma_fields_get_none(fs@, key@);
                assert forall|k2: Seq<char>|
                    #![trigger spec_fields_get(fs@, k2)]
                    k2 != key@ implies spec_fields_get(fs@, k2) == spec_fields_get(pre, k2) by {
                    lemma_fields_get_remove_other(pre, i as int, k2);
                }
                assert forall|a: int, b: int|
                    0 <= a < b < fs@.len() implies fs@[a].key@ != fs@[b].key@ by {
                    let pa = if a < i as int {
                        a
                    } else {
                        a + 1
                    };
                    let pb = if b < i as int {
                        b
                    } else {
                        b + 1
                    };
                    assert(fs@[a] == pre[pa] && fs@[b] == pre[pb]);
                }
            }
            Some(nv.val)
        },
    }
}

/// Appending a shard for a pair not yet present leaves every other
/// pair's lookup alone.
proof fn lemma_find_shard_push(hs: Seq<ShardEntry>, e: ShardEntry)
    requires
        spec_find_shard(hs, e.token@, e.epoch as int) is None,
    ensures
        spec_find_shard(hs.push(e), e.token@, e.epoch as int) == Option::Some(e),
        forall|t2: Seq<char>, e2: int|
            #![trigger spec_find_shard(hs.push(e), t2, e2)]
            !(t2 == e.token@ && e2 == e.epoch) ==> spec_find_shard(hs.push(e), t2, e2)
                == spec_find_shard(hs, t2, e2),
{
    assert forall|j: int| #![trigger hs[j]] 0 <= j < hs.len() implies !(hs[j].token@ == e.token@
        && hs[j].epoch == e.epoch) by {
        if hs[j].token@ == e.token@ && hs[j].epoch == e.epoch {
            lemma_shard_slot_found(hs, j);
        }
    }
    crate::session::lemma_find_shard_at(hs.push(e), hs.len() as int);
    assert forall|t2: Seq<char>, e2: int|
        #![trigger spec_find_shard(hs.push(e), t2, e2)]
        !(t2 == e.token@ && e2 == e.epoch) implies spec_find_shard(hs.push(e), t2, e2)
        == spec_find_shard(hs, t2, e2) by {
        lemma_find_shard_push_other(hs, e, t2, e2);
    }
}

/// Pushing a shard entry does not change lookups of other pairs.
proof fn lemma_find_shard_push_other(hs: Seq<ShardEntry>, e: ShardEntry, t2: Seq<char>, e2: int)
    requires
        !(t2 == e.token@ && e2 == e.epoch),
    ensures
        spec_find_shard(hs.push(e), t2, e2) == spec_find_shard(hs, t2, e2),
    decreases hs.len(),
{
    if hs.len() == 0 {
        assert(hs.push(e)[0] == e);
        assert(hs.push(e).drop_first() =~= hs);
        assert(spec_find_shard(hs.push(e), t2, e2) == spec_find_shard(
            hs.push(e).drop_first(),
            t2,
            e2,
        ));
    } else {
        assert(hs.push(e)[0] == hs[0]);
        assert(hs.push(e).drop_first() =~= hs.drop_first().push(e));
        lemma_find_shard_push_other(hs.drop_first(), e, t2, e2);
    }
}

/// A shard entry present in the table makes its pair's lookup a hit.
proof fn lemma_shard_slot_found(hs: Seq<ShardEntry>, j: int)
    requires
        0 <= j < hs.len(),
    ensures
        spec_find_shard(hs, hs[j].token@, hs[j].epoch as int) is Some,
    decreases hs.len(),
{
    if !(hs[0].token@ == hs[j].token@ && hs[0].epoch == hs[j].epoch) {
        assert(hs.drop_first()[j - 1] == hs[j]);
        lemma_shard_slot_found(hs.drop_first(), j - 1);
    }
}

/// Reads one slot of one shard, duplicating the stored value.
fn shard_field_read(st: &SessionStore, token: &String, ep: u64, key: &String) -> (r: Option<Value>)
    ensures
        match r {
            Option::Some(v) => spec_shard_field(*st, token@, ep as int, key@) matches Option::Some(
                w,
            ) && v@ == w@,
            Option::None => spec_shard_field(*st, token@, ep as int, key@) is None,
        },
{
    match st.shard_index(token, ep) {
        Option::None => None,
        Option::Some(i) => {
            match fields_index(&st.shards[i].data.fields, key) {
                Option::None => None,
                Option::Some(j) => Some(st.shards[i].data.fields[j].val.duplicate()),
            }
        },
    }
}

/// Scans from `from` down to 0 for the epoch whose shard holds `field`.
fn kv_found(st: &SessionStore, token: &String, field: &String, from: u64) -> (r: Option<u64>)
    ensures
        match r {
            Option::Some(e) => e <= from && spec_kv_found(*st, token@, field@, from as nat)
                == Option::Some(e as int),
            Option::None => spec_kv_found(*st, token@, field@, from as nat) is None,
        },
{
    let mut ep: u64 = from;
    loop
        invariant
            ep <= from,
            spec_kv_found(*st, token@, field@, from as nat) == spec_kv_found(
                *st,
                token@,
                field@,
                ep as nat,
            ),
        decreases ep,
    {
        match st.shard_index(token, ep) {
            Option::Some(i) => {
                match fields_index(&st.shards[i].data.fields, field) {
                    Option::Some(_) => {
                        return Some(ep);
                    },
                    Option::None => {
                    },
                }
            },
            Option::None => {
            },
        }
        if ep == 0 {
            return None;
        }
        ep = ep - 1;
    }
}

/// Writes one slot of one shard, creating the shard if it is absent.
fn put_shard_field(st: &mut SessionStore, token: &String, ep: u64, key: &String, val: Value)
    requires
        wf(*old(st)),
        spec_find_session(old(st).sessions@, token@) matches Option::Some(s) && ep <= s.epoch + 1,
    ensures
        wf(*final(st)),
        final(st).sessions == old(st).sessions,
        forall|t2: Seq<char>, e2: int, k2: Seq<char>|
            #![trigger spec_shard_field(*final(st), t2, e2, k2)]
            spec_shard_field(*final(st), t2, e2, k2) == if t2 == token@ && e2 == ep && k2 == key@ {
                Option::Some(val)
            } else {
                spec_shard_field(*old(st), t2, e2, k2)
            },
{
    match st.shard_index(token, ep) {
        Option::Some(i) => {
            let mut entry = st.shards.remove(i);
            let ghost mid = st.shards@;
            let ghost pre = old(st).shards@;
            let ghost pre_fields = entry.data.fields@;
            fields_set(&mut entry.data.fields, key, val);
            st.shards.push(entry);
            proof {
                assert(mid =~= pre.remove(i as int));
                crate::session::lemma_find_shard_remove_gone(pre, i as int);
                assert forall|t2: Seq<char>, e2: int|
                    #![trigger spec_find_shard(mid, t2, e2)]
                    !(t2 == token@ && e2 == ep) implies spec_find_shard(mid, t2, e2)
                    == spec_find_shard(pre, t2, e2) by {
                    crate::session::lemma_find_shard_remove(pre, i as int, t2, e2);
                }
                assert forall|a: int, b: int|
                    0 <= a < b < mid.len() implies !(mid[a].token@ == mid[b].token@ && mid[a].epoch
                    == mid[b].epoch) by {
                    let pa = if a < i as int {
                        a
                    } else {
                        a + 1
                    };
                    let pb = if b < i as int {
                        b
                    } else {
                        b + 1
                    };
                    assert(mid[a] == pre[pa] && mid[b] == pre[pb]);
                }
                let ne = st.shards@.last();
                assert(ne.token@ == token@ && ne.epoch == ep);
                lemma_find_shard_push(mid, ne);
                assert(st.shards@ =~= mid.push(ne));
                assert forall|a: int, b: int|
                    0 <= a < b < st.shards@.len() implies !(st.shards@[a].token@
                    == st.shards@[b].token@ && st.shards@[a].epoch == st.shards@[b].epoch) by {
                    if b < mid.len() {
                        assert(st.shards@[a] == mid[a] && st.shards@[b] == mid[b]);
                    } else {
                        assert(st.shards@[b] == ne && st.shards@[a] == mid[a]);
                        if mid[a].token@ == token@ && mid[a].epoch == ep {
                            lemma_shard_slot_found(mid, a);
                        }
                    }
                }
                assert forall|t2: Seq<char>, e2: int, k2: Seq<char>|
                    #![trigger spec_shard_field(*st, t2, e2, k2)]
                    spec_shard_field(*st, t2, e2, k2) == (if t2 == token@ && e2 == ep && k2
                        == key@ {
                        Option::Some(val)
                    } else {
                        spec_shard_field(*old(st), t2, e2, k2)
                    }) by {
                    if t2 == token@ && e2 == ep {
                        assert(spec_find_shard(st.shards@, t2, e2) == Option::Some(ne));
                        assert(spec_fields_get(ne.data.fields@, k2) == if k2 == key@ {
                            Option::Some(val)
                        } else {
                            spec_fields_get(pre_fields, k2)
                        });
                        assert(spec_find_shard(pre, t2, e2) == Option::Some(pre[i as int]));
                        assert(pre[i as int].data.fields@ == pre_fields);
                    } else {
                        assert(spec_find_shard(st.shards@, t2, e2) == spec_find_shard(
                            mid,
                            t2,
                            e2,
                        ));
                        assert(spec_find_shard(mid, t2, e2) == spec_find_shard(pre, t2, e2));
                    }
                }
                assert forall|m: int|
                    0 <= m < st.shards@.len() implies (spec_find_session(
                    st.sessions@,
                    #[trigger] st.shards@[m].token@,
                ) matches Option::Some(s2) && st.shards@[m].epoch <= s2.epoch + 1) && fields_unique(
                    st.shards@[m].data.fields@,
                ) by {
                    if m < mid.len() {
                        let pm = if m < i as int {
                            m
                        } else {
                            m + 1
                        };
                        assert(st.shards@[m] == pre[pm]);
                    } else {
                        assert(st.shards@[m] == ne);
                    }
                }
            }
        },
        Option::None => {
            let mut fields: Vec<NamedValue> = Vec::new();
            fields.push(NamedValue { key: key.clone(), val });
            let entry = ShardEntry { token: token.clone(), epoch: ep, data: Shard { fields } };
            st.shards.push(entry);
            proof {
                let pre = old(st).shards@;
                let ne = st.shards@.last();
                assert(ne.token@ == token@ && ne.epoch == ep);
                lemma_find_shard_push(pre, ne);
                assert(st.shards@ =~= pre.push(ne));
                assert forall|a: int, b: int|
                    0 <= a < b < st.shards@.len() implies !(st.shards@[a].token@
                    == st.shards@[b].token@ && st.shards@[a].epoch == st.shards@[b].epoch) by {
                    if b < pre.len() {
                        assert(st.shards@[a] == pre[a] && st.shards@[b] == pre[b]);
                    } else {
                        assert(st.shards@[b] == ne && st.shards@[a] == pre[a]);
                        if pre[a].token@ == token@ && pre[a].epoch == ep {
                            lemma_shard_slot_found(pre, a);
                        }
                    }
                }
                let nf = ne.data.fields@;
                assert(nf.len() == 1 && nf[0].key@ == key@ && nf[0].val == val);
                lemma_fields_get_at(nf, 0);
                assert forall|t2: Seq<char>, e2: int, k2: Seq<char>|
                    #![trigger spec_shard_field(*st, t2, e2, k2)]
                    spec_shard_field(*st, t2, e2, k2) == (if t2 == token@ && e2 == ep && k2
                        == key@ {
                        Option::Some(val)
                    } else {
                        spec_shard_field(*old(st), t2, e2, k2)
                    }) by {
                    if t2 == token@ && e2 == ep {
                        assert(spec_find_shard(st.shards@, t2, e2) == Option::Some(ne));
                        if k2 != key@ {
                            assert(nf.drop_first() =~= Seq::<NamedValue>::empty());
                            assert(spec_fields_get(nf, k2) == spec_fields_get(
                                nf.drop_first(),
                                k2,
                            ));
                        }
                    } else {
                        assert(spec_find_shard(st.shards@, t2, e2) == spec_find_shard(
                            pre,
                            t2,
                            e2,
                        ));
                    }
                }
                assert forall|m: int|
                    0 <= m < st.shards@.len() implies (spec_find_session(
                    st.sessions@,
                    #[trigger] st.shards@[m].token@,
                ) matches Option::Some(s2) && st.shards@[m].epoch <= s2.epoch + 1) && fields_unique(
                    st.shards@[m].data.fields@,
                ) by {
                    if m < pre.len() {
                        assert(st.shards@[m] == pre[m]);
                    } else {
                        assert(st.shards@[m] == ne);
                    }
                }
            }
        },
    }
}

/// Takes one slot out of one shard, returning exactly what was stored.
fn take_shard_field(st: &mut SessionStore, token: &String, ep: u64, key: &String) -> (r: Option<
    Value,
>)
    requires
        wf(*old(st)),
    ensures
        wf(*final(st)),
        final(st).sessions == old(st).sessions,
        r == spec_shard_field(*old(st), token@, ep as int, key@),
        forall|t2: Seq<char>, e2: int, k2: Seq<char>|
            #![trigger spec_shard_field(*final(st), t2, e2, k2)]
            spec_shard_field(*final(st), t2, e2, k2) == if t2 == token@ && e2 == ep && k2 == key@ {
                Option::<Value>::None
            } else {
                spec_shard_field(*old(st), t2, e2, k2)
            },
{
    match st.shard_index(token, ep) {
        Option::None => None,
        Option::Some(i) => {
            let mut entry = st.shards.remove(i);
            let ghost mid = st.shards@;
            let ghost pre = old(st).shards@;
            let ghost pre_fields = entry.data.fields@;
            let taken = fields_take(&mut entry.data.fields, key);
            st.shards.push(entry);
            proof {
                assert(mid =~= pre.remove(i as int));
                crate::session::lemma_find_shard_remove_gone(pre, i as int);
                assert forall|t2: Seq<char>, e2: int|
                    #![trigger spec_find_shard(mid, t2, e2)]
                    !(t2 == token@ && e2 == ep) implies spec_find_shard(mid, t2, e2)
                    == spec_find_shard(pre, t2, e2) by {
                    crate::session::lemma_find_shard_remove(pre, i as int, t2, e2);
                }
                assert forall|a: int, b: int|
                    0 <= a < b < mid.len() implies !(mid[a].token@ == mid[b].token@ && mid[a].epoch
                    == mid[b].epoch) by {
                    let pa = if a < i as int {
                        a
                    } else {
                        a + 1
                    };
                    let pb = if b < i as int {
                        b
                    } else {
                        b + 1
                    };
                    assert(mid[a] == pre[pa] && mid[b] == pre[pb]);
                }
                let ne = st.shards@.last();
                assert(ne.token@ == token@ && ne.epoch == ep);
                lemma_find_shard_push(mid, ne);
                assert(st.shards@ =~= mid.push(ne));
                assert forall|a: int, b: int|
                    0 <= a < b < st.shards@.len() implies !(st.shards@[a].token@
                    == st.shards@[b].token@ && st.shards@[a].epoch == st.shards@[b].epoch) by {
                    if b < mid.len() {
                        assert(st.shards@[a] == mid[a] && st.shards@[b] == mid[b]);
                    } else {
                        assert(st.shards@[b] == ne && st.shards@[a] == mid[a]);
                        if mid[a].token@ == token@ && mid[a].epoch == ep {
                            lemma_shard_slot_found(mid, a);
                        }
                    }
                }
                assert forall|t2: Seq<char>, e2: int, k2: Seq<char>|
                    #![trigger spec_shard_field(*st, t2, e2, k2)]
                    spec_shard_field(*st, t2, e2, k2) == (if t2 == token@ && e2 == ep && k2
                        == key@ {
                        Option::<Value>::None
                    } else {
                        spec_shard_field(*old(st), t2, e2, k2)
                    }) by {
                    if t2 == token@ && e2 == ep {
                        assert(spec_find_shard(st.shards@, t2, e2) == Option::Some(ne));
                        assert(spec_find_shard(pre, t2, e2) == Option::Some(pre[i as int]));
                        assert(pre[i as int].data.fields@ == pre_fields);
                    } else {
                        assert(spec_find_shard(st.shards@, t2, e2) == spec_find_shard(
                            mid,
                            t2,
                            e2,
                        ));
                        assert(spec_find_shard(mid, t2, e2) == spec_find_shard(pre, t2, e2));
                    }
                }
                assert forall|m: int|
                    0 <= m < st.shards@.len() implies (spec_find_session(
                    st.sessions@,
                    #[trigger] st.shards@[m].token@,
                ) matches Option::Some(s2) && st.shards@[m].epoch <= s2.epoch + 1) && fields_unique(
                    st.shards@[m].data.fields@,
                ) by {
                    if m < mid.len() {
                        let pm = if m < i as int {
                            m
                        } else {
                            m + 1
                        };
                        assert(st.shards@[m] == pre[pm]);
                    } else {
                        assert(st.shards@[m] == ne);
                    }
                }
            }
            taken
        },
    }
}

/// The atomic read: what it returns and exactly how the shards move.
pub open spec fn spec_atomic_query_kv(
    pre: SessionStore,
    post: SessionStore,
    tok: Seq<char>,
    field: Seq<char>,
    default: Value,
    r: Result<Value, WorkerError>,
) -> bool {
    match r {
        Result::Ok(v) => spec_find_session(pre.sessions@, tok) matches Option::Some(s) && {
            let e = s.epoch as int;
            &&& v@ == spec_kv_read(pre, tok, field, s.epoch as nat, default)@
            &&& post.sessions == pre.sessions
            &&& forall|t2: Seq<char>, e2: int, k2: Seq<char>|
                #![trigger spec_shard_field(post, t2, e2, k2)]
                spec_shard_field(post, t2, e2, k2) == if t2 == tok && e2 == e && k2 == field {
                    Option::Some(spec_kv_read(pre, tok, field, s.epoch as nat, default))
                } else if t2 == tok && k2 == field && Option::Some(e2) == spec_kv_found(
                    pre,
                    tok,
                    field,
                    s.epoch as nat,
                ) {
                    Option::<Value>::None
                } else {
                    spec_shard_field(pre, t2, e2, k2)
                }
        },
        Result::Err(er) => {
            &&& er == WorkerError::BackendError
            &&& spec_find_session(pre.sessions@, tok) is None
            &&& post == pre
        },
    }
}

/// Atomically reads `field` under the session's current epoch: the value
/// comes from the current shard or the newest prior epoch holding one
/// (the caller's default on a miss), and is relocated into the current
/// shard so the next read finds it there.
pub fn atomic_query_kv(
    st: &mut SessionStore,
    token: &String,
    field: &String,
    default: Value,
) -> (r: Result<Value, WorkerError>)
    requires
        wf(*old(st)),
    ensures
        wf(*final(st)),
        spec_atomic_query_kv(*old(st), *final(st), token@, field@, default, r),
{
    let i = match st.session_index(token) {
        Option::None => {
            return Err(WorkerError::BackendError);
        },
        Option::Some(i) => i,
    };
    let e = st.sessions[i].epoch;
    proof {
        lemma_found_lookup(*st, token@, field@, e as nat);
    }
    match kv_found(st, token, field, e) {
        Option::Some(estar) => {
            let v = match take_shard_field(st, token, estar, field) {
                Option::Some(v) => v,
                Option::None => {
                    proof {
                        assert(false);
                    }
                    default
                },
            };
            let keep = v.duplicate();
            let ghost mid = *st;
            put_shard_field(st, token, e, field, v);
            proof {
                assert forall|t2: Seq<char>, e2: int, k2: Seq<char>|
                    #![trigger spec_shard_field(*st, t2, e2, k2)]
                    spec_shard_field(*st, t2, e2, k2) == (if t2 == token@ && e2 == e && k2
                        == field@ {
                        Option::Some(spec_kv_read(*old(st), token@, field@, e as nat, default))
                    } else if t2 == token@ && k2 == field@ && Option::Some(e2) == spec_kv_found(
                        *old(st),
                        token@,
                        field@,
                        e as nat,
                    ) {
                        Option::<Value>::None
                    } else {
                        spec_shard_field(*old(st), t2, e2, k2)
                    }) by {
                    assert(spec_shard_field(mid, t2, e2, k2) == if t2 == token@ && e2 == estar
                        && k2 == field@ {
                        Option::<Value>::None
                    } else {
                        spec_shard_field(*old(st), t2, e2, k2)
                    });
                }
            }
            Ok(keep)
        },
        Option::None => {
            let keep = default.duplicate();
            put_shard_field(st, token, e, field, default);
            Ok(keep)
        },
    }
}

/// The merged value of a write, when the operation is defined: `Mov`
/// overwrites; `Add` increments a numeric current value (an absent one
/// counts as zero) and is undefined on other kinds or on overflow.
pub open spec fn spec_merge(cur: Option<Value>, arg: Value, op: MergeOp) -> Option<Value> {
    match op {
        MergeOp::Mov => Option::Some(arg),
        MergeOp::Add => match arg {
            Value::I32(d) => match cur {
                Option::None => Option::Some(Value::I32(d)),
                Option::Some(Value::I32(x)) => if i32::MIN <= x + d <= i32::MAX {
                    Option::Some(Value::I32((x + d) as i32))
                } else {
                    Option::<Value>::None
                },
                Option::Some(_) => Option::None,
            },
            Value::I64(d) => match cur {
                Option::None => Option::Some(Value::I64(d)),
                Option::Some(Value::I64(x)) => if i64::MIN <= x + d <= i64::MAX {
                    Option::Some(Value::I64((x + d) as i64))
                } else {
                    Option::<Value>::None
                },
                Option::Some(_) => Option::None,
            },
            _ => Option::None,
        },
        MergeOp::Del => Option::None,
    }
}

/// The atomic write: scoped to one past the current epoch, so it stays
/// invisible until the epoch is advanced.
pub open spec fn spec_atomic_update_kv(
    pre: SessionStore,
    post: SessionStore,
    tok: Seq<char>,
    field: Seq<char>,
    arg: Value,
    op: MergeOp,
    r: Result<(), WorkerError>,
) -> bool {
    match r {
        Result::Ok(u) => spec_find_session(pre.sessions@, tok) matches Option::Some(s) && {
            let e1 = s.epoch + 1;
            &&& post.sessions == pre.sessions
            &&& if op == MergeOp::Del {
                forall|t2: Seq<char>, e2: int, k2: Seq<char>|
                    #![trigger spec_shard_field(post, t2, e2, k2)]
                    spec_shard_field(post, t2, e2, k2) == if t2 == tok && e2 == e1 && k2
                        == field {
                        Option::<Value>::None
                    } else {
                        spec_shard_field(pre, t2, e2, k2)
                    }
            } else {
                spec_merge(spec_kv_lookup(pre, tok, field, s.epoch as nat), arg, op)
                    matches Option::Some(m) && forall|t2: Seq<char>, e2: int, k2: Seq<char>|
                    #![trigger spec_shard_field(post, t2, e2, k2)]
                    spec_shard_field(post, t2, e2, k2) == if t2 == tok && e2 == e1 && k2
                        == field {
                        Option::Some(m)
                    } else {
                        spec_shard_field(pre, t2, e2, k2)
                    }
            }
        },
        Result::Err(er) => {
            &&& post == pre
            &&& ((er == WorkerError::BackendError && spec_find_session(pre.sessions@, tok) is None)
                || (er == WorkerError::HostImportError && (spec_find_session(pre.sessions@, tok)
                matches Option::Some(s) && op != MergeOp::Del && spec_merge(
                spec_kv_lookup(pre, tok, field, s.epoch as nat),
                arg,
                op,
            ) is None)))
        },
    }
}

/// Atomically writes `field` under one past the session's current epoch.
/// `Add` increments the visible numeric value (absent counts as zero),
/// `Mov` overwrites, `Del` clears the pending slot; an `Add` on a
/// non-numeric kind, a kind mismatch, or overflow fails the one call.
pub fn atomic_update_kv(
    st: &mut SessionStore,
    token: &String,
    field: &String,
    arg: Value,
    op: MergeOp,
) -> (r: Result<(), WorkerError>)
    requires
        wf(*old(st)),
        spec_find_session(old(st).sessions@, token@) matches Option::Some(s) ==> s.epoch
            < u64::MAX,
    ensures
        wf(*final(st)),
        spec_atomic_update_kv(*old(st), *final(st), token@, field@, arg, op, r),
{
    let i = match st.session_index(token) {
        Option::None => {
            return Err(WorkerError::BackendError);
        },
        Option::Some(i) => i,
    };
    let e = st.sessions[i].epoch;
    if matches!(op, MergeOp::Del) {
        let _ = take_shard_field(st, token, e + 1, field);
        return Ok(());
    }
    proof {
        lemma_found_lookup(*st, token@, field@, e as nat);
    }
    let cur: Option<Value> = match kv_found(st, token, field, e) {
        Option::Some(estar) => shard_field_read(st, token, estar, field),
        Option::None => None,
    };
    proof {
        match &cur {
            Option::Some(v) => {
                assert(spec_kv_lookup(*st, token@, field@, e as nat) matches Option::Some(w) && v@
                    == w@);
            },
            Option::None => {
                assert(spec_kv_lookup(*st, token@, field@, e as nat) is None);
            },
        }
    }
    let merged: Value = match op {
        MergeOp::Mov => arg,
        MergeOp::Add => {
            match arg {
                Value::I32(d) => match &cur {
                    Option::None => Value::I32(d),
                    Option::Some(Value::I32(x)) => match x.checked_add(d) {
                        Option::Some(m) => Value::I32(m),
                        Option::None => {
                            return Err(WorkerError::HostImportError);
                        },
                    },
                    Option::Some(_) => {
                        return Err(WorkerError::HostImportError);
                    },
                },
                Value::I64(d) => match &cur {
                    Option::None => Value::I64(d),
                    Option::Some(Value::I64(x)) => match x.checked_add(d) {
                        Option::Some(m) => Value::I64(m),
                        Option::None => {
                            return Err(WorkerError::HostImportError);
                        },
                    },
                    Option::Some(_) => {
                        return Err(WorkerError::HostImportError);
                    },
                },
                _ => {
                    return Err(WorkerError::HostImportError);
                },
            }
        },
        MergeOp::Del => Value::Nil,
    };
    put_shard_field(st, token, e + 1, field, merged);
    Ok(())
}

/// The view of a stored slot.
pub open spec fn view_of_slot(x: Option<Value>) -> Option<ValueView> {
    match x {
        Option::Some(v) => Option::Some(v@),
        Option::None => Option::None,
    }
}

/// The view of the visible value of `field` at epoch `ep`.
pub open spec fn spec_lookup_view(
    st: SessionStore,
    tok: Seq<char>,
    field: Seq<char>,
    ep: nat,
) -> Option<ValueView> {
    view_of_slot(spec_kv_lookup(st, tok, field, ep))
}

/// The view a read returns: the visible value, or the default.
pub open spec fn spec_read_view(
    st: SessionStore,
    tok: Seq<char>,
    field: Seq<char>,
    ep: nat,
    d: ValueView,
) -> ValueView {
    match spec_lookup_view(st, tok, field, ep) {
        Option::Some(v) => v,
        Option::None => d,
    }
}

/// The view a typed read returns: a stored value of another kind falls
/// back to the default, as a failed parse of the raw store would.
pub open spec fn spec_typed_read(
    st: SessionStore,
    tok: Seq<char>,
    field: Seq<char>,
    ep: nat,
    d: ValueView,
) -> ValueView {
    let rv = spec_read_view(st, tok, field, ep, d);
    if rv.kind() == d.kind() {
        rv
    } else {
        d
    }
}

/// Reads a whole vector of fields under the session's current epoch, one
/// atomic fallback-and-relocate read per field, into a column of the
/// default's kind; a stored value of another kind yields the default.
pub fn storage_query_kv(
    st: &mut SessionStore,
    token: &String,
    keys: &Vec<String>,
    default: &Value,
) -> (r: Result<Column, WorkerError>)
    requires
        wf(*old(st)),
    ensures
        wf(*final(st)),
        match r {
            Result::Ok(col) => spec_find_session(old(st).sessions@, token@)
                matches Option::Some(s) && {
                &&& default@.kind() != ValueKind::Nil
                &&& col@.kind == default@.kind()
                &&& col@.cells.len() == keys@.len()
                &&& forall|j: int|
                    0 <= j < keys@.len() ==> #[trigger] col@.cells[j] == spec_typed_read(
                        *old(st),
                        token@,
                        keys@[j]@,
                        s.epoch as nat,
                        default@,
                    )
                &&& final(st).sessions == old(st).sessions
                &&& forall|k2: Seq<char>|
                    #![trigger spec_read_view(*final(st), token@, k2, s.epoch as nat, default@)]
                    spec_read_view(*final(st), token@, k2, s.epoch as nat, default@)
                        == spec_read_view(*old(st), token@, k2, s.epoch as nat, default@)
                &&& forall|t2: Seq<char>, e2: int, k2: Seq<char>|
                    #![trigger spec_shard_field(*final(st), t2, e2, k2)]
                    t2 != token@ ==> spec_shard_field(*final(st), t2, e2, k2) == spec_shard_field(
                        *old(st),
                        t2,
                        e2,
                        k2,
                    )
            },
            Result::Err(er) => *final(st) == *old(st) && ((er == WorkerError::BackendError
                && spec_find_session(old(st).sessions@, token@) is None) || (er
                == WorkerError::HostImportError && spec_find_session(old(st).sessions@, token@)
                is Some && default@.kind() == ValueKind::Nil)),
        },
{
    let i = match st.session_index(token) {
        Option::None => {
            return Err(WorkerError::BackendError);
        },
        Option::Some(i) => i,
    };
    let e = st.sessions[i].epoch;
    let ghost s0 = spec_find_session(st.sessions@, token@)->Some_0;
    if matches!(default.kind(), ValueKind::Nil) {
        return Err(WorkerError::HostImportError);
    }
    let mut col = Column::empty_like(default);
    let mut j: usize = 0;
    while j < keys.len()
        invariant
            wf(*st),
            st.sessions == old(st).sessions,
            spec_find_session(st.sessions@, token@) == Option::Some(s0),
            s0.epoch == e,
            default@.kind() != ValueKind::Nil,
            col@.kind == default@.kind(),
            col@.cells.len() == j,
            j <= keys@.len(),
            forall|m: int|
                0 <= m < j ==> #[trigger] col@.cells[m] == spec_typed_read(
                    *old(st),
                    token@,
                    keys@[m]@,
                    e as nat,
                    default@,
                ),
            forall|k2: Seq<char>|
                #![trigger spec_read_view(*st, token@, k2, e as nat, default@)]
                spec_read_view(*st, token@, k2, e as nat, default@) == spec_read_view(
                    *old(st),
                    token@,
                    k2,
                    e as nat,
                    default@,
                ),
            forall|t2: Seq<char>, e2: int, k2: Seq<char>|
                #![trigger spec_shard_field(*st, t2, e2, k2)]
                t2 != token@ ==> spec_shard_field(*st, t2, e2, k2) == spec_shard_field(
                    *old(st),
                    t2,
                    e2,
                    k2,
                ),
        decreases keys@.len() - j,
    {
        let ghost before = *st;
        let dv = default.duplicate();
        let v = match atomic_query_kv(st, token, &keys[j], dv) {
            Result::Ok(v) => v,
            Result::Err(_) => {
                proof {
                    assert(false);
                }
                return Err(WorkerError::BackendError);
            },
        };
        proof {
            assert(v@ == spec_read_view(before, token@, keys@[j as int]@, e as nat, default@));
        }
        let cell = if v.kind() == default.kind() {
            v
        } else {
            default.duplicate()
        };
        col.push_value(&cell);
        proof {
            let kj = keys@[j as int]@;
            assert(cell@ == spec_typed_read(before, token@, kj, e as nat, default@));
            assert(spec_typed_read(before, token@, kj, e as nat, default@) == spec_typed_read(
                *old(st),
                token@,
                kj,
                e as nat,
                default@,
            ));
            assert forall|k2: Seq<char>|
                #![trigger spec_read_view(*st, token@, k2, e as nat, default@)]
                spec_read_view(*st, token@, k2, e as nat, default@) == spec_read_view(
                before,
                token@,
                k2,
                e as nat,
                default@,
            ) by {
                if k2 == kj {
                    assert(spec_shard_field(*st, token@, e as int, k2) == Option::Some(
                        spec_kv_read(before, token@, kj, e as nat, dv),
                    ));
                } else {
                    assert forall|e2: int|
                        0 <= e2 <= e implies #[trigger] spec_shard_field(*st, token@, e2, k2)
                        == spec_shard_field(before, token@, e2, k2) by {}
                    lemma_kv_lookup_same(before, *st, token@, k2, e as nat);
                }
            }
        }
        j = j + 1;
    }
    Ok(col)
}

/// The merged view of a write, mirroring [`spec_merge`] on models.
pub open spec fn spec_merge_view(
    cur: Option<ValueView>,
    arg: ValueView,
    op: MergeOp,
) -> Option<ValueView> {
    match op {
        MergeOp::Mov => Option::Some(arg),
        MergeOp::Add => match arg {
            ValueView::I32(d) => match cur {
                Option::None => Option::Some(ValueView::I32(d)),
                Option::Some(ValueView::I32(x)) => if i32::MIN <= x + d <= i32::MAX {
                    Option::Some(ValueView::I32((x + d) as i32))
                } else {
                    Option::<ValueView>::None
                },
                Option::Some(_) => Option::None,
            },
            ValueView::I64(d) => match cur {
                Option::None => Option::Some(ValueView::I64(d)),
                Option::Some(ValueView::I64(x)) => if i64::MIN <= x + d <= i64::MAX {
                    Option::Some(ValueView::I64((x + d) as i64))
                } else {
                    Option::<ValueView>::None
                },
                Option::Some(_) => Option::None,
            },
            _ => Option::None,
        },
        MergeOp::Del => Option::None,
    }
}

/// Merging values and merging their views agree.
proof fn lemma_merge_view(cur: Option<Value>, arg: Value, op: MergeOp)
    ensures
        view_of_slot(spec_merge(cur, arg, op)) == spec_merge_view(view_of_slot(cur), arg@, op),
{
}

/// Whether a column kind is accepted by a batch write: `Add` increments
/// integer columns; `Mov` also moves strings; anything else is ignored.
pub open spec fn spec_batch_kind_ok(kind: ValueKind, op: MergeOp) -> bool {
    match op {
        MergeOp::Add => kind == ValueKind::I32 || kind == ValueKind::I64,
        MergeOp::Mov => kind == ValueKind::I32 || kind == ValueKind::I64 || kind == ValueKind::Txt,
        MergeOp::Del => true,
    }
}

/// How many leading items of a batch write merge cleanly, starting at
/// `j`: processing stops at the first undefined merge.
pub open spec fn spec_batch_count_from(
    pre: SessionStore,
    tok: Seq<char>,
    e: nat,
    keys: Seq<Seq<char>>,
    cells: Seq<ValueView>,
    op: MergeOp,
    j: int,
    limit: int,
) -> int
    decreases limit - j,
{
    if j >= limit {
        0
    } else if spec_merge_view(spec_lookup_view(pre, tok, keys[j], e), cells[j], op) is Some {
        1 + spec_batch_count_from(pre, tok, e, keys, cells, op, j + 1, limit)
    } else {
        0
    }
}

/// The pending-shard slot a batch write leaves for key `k` after its
/// first `n` items: the merge of the last item naming `k`, if any.
pub open spec fn spec_batch_slot(
    pre: SessionStore,
    tok: Seq<char>,
    e: nat,
    keys: Seq<Seq<char>>,
    cells: Seq<ValueView>,
    op: MergeOp,
    n: int,
    k: Seq<char>,
) -> Option<ValueView>
    decreases n,
{
    if n <= 0 {
        Option::None
    } else if keys[n - 1] == k {
        spec_merge_view(spec_lookup_view(pre, tok, k, e), cells[n - 1], op)
    } else {
        spec_batch_slot(pre, tok, e, keys, cells, op, n - 1, k)
    }
}

/// The key views of a vector of keys.
pub open spec fn keys_view(keys: Seq<String>) -> Seq<Seq<char>> {
    Seq::new(keys.len(), |i: int| keys[i]@)
}

/// Applies a batch of writes to the pending shard of one session: per
/// item, one atomic write of `keys[i]` with `vals[i]` under the given
/// merge; processing stops at the first item whose merge is undefined,
/// and the count of clean items is returned. A column whose kind the
/// merge does not accept is ignored whole, with a count of zero; `Del`
/// ignores the values and clears every named pending slot. Writes stay
/// invisible at the current epoch.
pub fn update_store(
    st: &mut SessionStore,
    token: &String,
    keys: &Vec<String>,
    vals: &Column,
    op: MergeOp,
) -> (r: Result<u64, WorkerError>)
    requires
        wf(*old(st)),
        spec_find_session(old(st).sessions@, token@) matches Option::Some(s) ==> s.epoch
            < u64::MAX,
    ensures
        wf(*final(st)),
        match r {
            Result::Ok(count) => spec_find_session(old(st).sessions@, token@)
                matches Option::Some(s) && {
                let e = s.epoch as nat;
                let e1 = s.epoch + 1;
                let kv = keys_view(keys@);
                &&& final(st).sessions == old(st).sessions
                &&& forall|k2: Seq<char>|
                    #![trigger spec_kv_lookup(*final(st), token@, k2, e)]
                    spec_kv_lookup(*final(st), token@, k2, e) == spec_kv_lookup(
                        *old(st),
                        token@,
                        k2,
                        e,
                    )
                &&& forall|t2: Seq<char>, e2: int, k2: Seq<char>|
                    #![trigger spec_shard_field(*final(st), t2, e2, k2)]
                    !(t2 == token@ && e2 == e1) ==> spec_shard_field(*final(st), t2, e2, k2)
                        == spec_shard_field(*old(st), t2, e2, k2)
                &&& if !spec_batch_kind_ok(vals@.kind, op) {
                    count == 0 && *final(st) == *old(st)
                } else if op == MergeOp::Del {
                    count == keys@.len() && forall|k2: Seq<char>|
                        #![trigger spec_shard_field(*final(st), token@, e1 as int, k2)]
                        view_of_slot(spec_shard_field(*final(st), token@, e1 as int, k2)) == if (
                        exists|m: int| 0 <= m < keys@.len() && kv[m] == k2) {
                            Option::<ValueView>::None
                        } else {
                            view_of_slot(spec_shard_field(*old(st), token@, e1 as int, k2))
                        }
                } else {
                    let limit = if keys@.len() <= vals@.cells.len() {
                        keys@.len() as int
                    } else {
                        vals@.cells.len() as int
                    };
                    &&& count == spec_batch_count_from(
                        *old(st),
                        token@,
                        e,
                        kv,
                        vals@.cells,
                        op,
                        0,
                        limit,
                    )
                    &&& forall|k2: Seq<char>|
                        #![trigger spec_shard_field(*final(st), token@, e1 as int, k2)]
                        view_of_slot(spec_shard_field(*final(st), token@, e1 as int, k2))
                            == match spec_batch_slot(
                            *old(st),
                            token@,
                            e,
                            kv,
                            vals@.cells,
                            op,
                            count as int,
                            k2,
                        ) {
                            Option::Some(mv) => Option::Some(mv),
                            Option::None => view_of_slot(
                                spec_shard_field(*old(st), token@, e1 as int, k2),
                            ),
                        }
                }
            },
            Result::Err(er) => {
                &&& er == WorkerError::BackendError
                &&& spec_find_session(old(st).sessions@, token@) is None
                &&& *final(st) == *old(st)
            },
        },
{
    let i = match st.session_index(token) {
        Option::None => {
            return Err(WorkerError::BackendError);
        },
        Option::Some(i) => i,
    };
    let e = st.sessions[i].epoch;
    let ghost s0 = spec_find_session(st.sessions@, token@)->Some_0;
    let kind = vals.kind();
    let allowed = match op {
        MergeOp::Add => matches!(kind, ValueKind::I32) || matches!(kind, ValueKind::I64),
        MergeOp::Mov => matches!(kind, ValueKind::I32) || matches!(kind, ValueKind::I64)
            || matches!(kind, ValueKind::Txt),
        MergeOp::Del => true,
    };
    if !allowed {
        return Ok(0);
    }
    proof {
        assert(spec_batch_kind_ok(vals@.kind, op));
    }
    if matches!(op, MergeOp::Del) {
        let mut j: usize = 0;
        while j < keys.len()
            invariant
                wf(*st),
                st.sessions == old(st).sessions,
                spec_find_session(st.sessions@, token@) == Option::Some(s0),
                s0.epoch == e,
                e < u64::MAX,
                j <= keys@.len(),
                forall|k2: Seq<char>|
                    #![trigger spec_kv_lookup(*st, token@, k2, e as nat)]
                    spec_kv_lookup(*st, token@, k2, e as nat) == spec_kv_lookup(
                        *old(st),
                        token@,
                        k2,
                        e as nat,
                    ),
                forall|t2: Seq<char>, e2: int, k2: Seq<char>|
                    #![trigger spec_shard_field(*st, t2, e2, k2)]
                    !(t2 == token@ && e2 == e + 1) ==> spec_shard_field(*st, t2, e2, k2)
                        == spec_shard_field(*old(st), t2, e2, k2),
                forall|k2: Seq<char>|
                    #![trigger spec_shard_field(*st, token@, e + 1, k2)]
                    view_of_slot(spec_shard_field(*st, token@, e + 1, k2)) == if (exists|m: int|
                        0 <= m < j && keys_view(keys@)[m] == k2) {
                        Option::<ValueView>::None
                    } else {
                        view_of_slot(spec_shard_field(*old(st), token@, e + 1, k2))
                    },
            decreases keys@.len() - j,
        {
            let ghost before = *st;
            let res = atomic_update_kv(st, token, &keys[j], Value::Nil, MergeOp::Del);
            proof {
                assert(res is Ok);
                assert forall|k2: Seq<char>|
                    #![trigger spec_kv_lookup(*st, token@, k2, e as nat)]
                    spec_kv_lookup(*st, token@, k2, e as nat) == spec_kv_lookup(
                    before,
                    token@,
                    k2,
                    e as nat,
                ) by {
                    assert forall|e2: int|
                        0 <= e2 <= e implies #[trigger] spec_shard_field(*st, token@, e2, k2)
                        == spec_shard_field(before, token@, e2, k2) by {}
                    lemma_kv_lookup_same(before, *st, token@, k2, e as nat);
                }
                assert forall|k2: Seq<char>|
                    #![trigger spec_shard_field(*st, token@, e + 1, k2)]
                    view_of_slot(spec_shard_field(*st, token@, e + 1, k2)) == (if (exists|m: int|
                        0 <= m < j + 1 && keys_view(keys@)[m] == k2) {
                        Option::<ValueView>::None
                    } else {
                        view_of_slot(spec_shard_field(*old(st), token@, e + 1, k2))
                    }) by {
                    if k2 == keys@[j as int]@ {
                        assert(spec_shard_field(*st, token@, e + 1, k2) is None);
                        assert(keys_view(keys@)[j as int] == k2);
                    } else {
                        assert(spec_shard_field(*st, token@, e + 1, k2) == spec_shard_field(
                            before,
                            token@,
                            e + 1,
                            k2,
                        ));
                        if exists|m: int| 0 <= m < j + 1 && keys_view(keys@)[m] == k2 {
                            let m = choose|m: int| 0 <= m < j + 1 && keys_view(keys@)[m] == k2;
                            assert(m < j);
                            assert(exists|m2: int| 0 <= m2 < j && keys_view(keys@)[m2] == k2);
                        }
                    }
                }
            }
            j = j + 1;
        }
        return Ok(keys.len() as u64);
    }
    let limit = if keys.len() <= vals.len() {
        keys.len()
    } else {
        vals.len()
    };
    let ghost kv = keys_view(keys@);
    let ghost cellsv = vals@.cells;
    let mut j: usize = 0;
    while j < limit
        invariant
            wf(*st),
            st.sessions == old(st).sessions,
            spec_find_session(st.sessions@, token@) == Option::Some(s0),
            s0.epoch == e,
            e < u64::MAX,
            j <= limit,
            limit as int == if keys@.len() <= vals@.cells.len() {
                keys@.len() as int
            } else {
                vals@.cells.len() as int
            },
            kv == keys_view(keys@),
            cellsv == vals@.cells,
            !(op == MergeOp::Del),
            spec_batch_kind_ok(vals@.kind, op),
            spec_batch_count_from(*old(st), token@, e as nat, kv, cellsv, op, 0, limit as int) == j
                + spec_batch_count_from(
                *old(st),
                token@,
                e as nat,
                kv,
                cellsv,
                op,
                j as int,
                limit as int,
            ),
            forall|k2: Seq<char>|
                #![trigger spec_kv_lookup(*st, token@, k2, e as nat)]
                spec_kv_lookup(*st, token@, k2, e as nat) == spec_kv_lookup(
                    *old(st),
                    token@,
                    k2,
                    e as nat,
                ),
            forall|t2: Seq<char>, e2: int, k2: Seq<char>|
                #![trigger spec_shard_field(*st, t2, e2, k2)]
                !(t2 == token@ && e2 == e + 1) ==> spec_shard_field(*st, t2, e2, k2)
                    == spec_shard_field(*old(st), t2, e2, k2),
            forall|k2: Seq<char>|
                #![trigger spec_shard_field(*st, token@, e + 1, k2)]
                view_of_slot(spec_shard_field(*st, token@, e + 1, k2)) == match spec_batch_slot(
                    *old(st),
                    token@,
                    e as nat,
                    kv,
                    cellsv,
                    op,
                    j as int,
                    k2,
                ) {
                    Option::Some(mv) => Option::Some(mv),
                    Option::None => view_of_slot(
                        spec_shard_field(*old(st), token@, e + 1, k2),
                    ),
                },
        decreases limit - j,
    {
        let ghost before = *st;
        let arg = vals.get_or_nil(j);
        proof {
            assert(arg@ == cellsv[j as int]);
        }
        match atomic_update_kv(st, token, &keys[j], arg, op) {
            Result::Ok(u) => {
                proof {
                    let kj = kv[j as int];
                    lemma_merge_view(
                        spec_kv_lookup(before, token@, kj, e as nat),
                        arg,
                        op,
                    );
                    assert(spec_merge_view(
                        spec_lookup_view(*old(st), token@, kj, e as nat),
                        cellsv[j as int],
                        op,
                    ) is Some);
                    assert forall|k2: Seq<char>|
                        #![trigger spec_kv_lookup(*st, token@, k2, e as nat)]
                        spec_kv_lookup(*st, token@, k2, e as nat) == spec_kv_lookup(
                        before,
                        token@,
                        k2,
                        e as nat,
                    ) by {
                        assert forall|e2: int|
                            0 <= e2 <= e implies #[trigger] spec_shard_field(*st, token@, e2, k2)
                            == spec_shard_field(before, token@, e2, k2) by {}
                        lemma_kv_lookup_same(before, *st, token@, k2, e as nat);
                    }
                }
            },
            Result::Err(er) => {
                proof {
                    assert(er == WorkerError::HostImportError);
                    let kj = kv[j as int];
                    lemma_merge_view(
                        spec_kv_lookup(before, token@, kj, e as nat),
                        arg,
                        op,
                    );
                    assert(spec_merge_view(
                        spec_lookup_view(*old(st), token@, kj, e as nat),
                        cellsv[j as int],
                        op,
                    ) is None);
                    assert(spec_batch_count_from(
                        *old(st),
                        token@,
                        e as nat,
                        kv,
                        cellsv,
                        op,
                        j as int,
                        limit as int,
                    ) == 0);
                    assert(spec_batch_count_from(
                        *old(st),
                        token@,
                        e as nat,
                        kv,
                        cellsv,
                        op,
                        0,
                        limit as int,
                    ) == j as int);
                }
                return Ok(j as u64);
            },
        }
        j = j + 1;
    }
    proof {
        assert(spec_batch_count_from(
            *old(st),
            token@,
            e as nat,
            kv,
            cellsv,
            op,
            limit as int,
            limit as int,
        ) == 0);
    }
    Ok(limit as u64)
}

/// A pending `add` is invisible to reads at the epoch it was written
/// under, and after the epoch is advanced the new value is visible and
/// equals old plus delta (an absent old value counts as zero).
pub proof fn lemma_add_commits_on_advance(
    s0: SessionStore,
    s1: SessionStore,
    s2: SessionStore,
    tok: Seq<char>,
    field: Seq<char>,
    d: i64,
    r2: u64,
)
    requires
        spec_atomic_update_kv(s0, s1, tok, field, Value::I64(d), MergeOp::Add, Result::Ok(())),
        spec_increment_epoch(s1, s2, tok, Result::Ok(r2)),
    ensures
        spec_find_session(s0.sessions@, tok) matches Option::Some(s) ==> {
            let e = s.epoch as nat;
            &&& forall|k2: Seq<char>|
                #![trigger spec_kv_lookup(s1, tok, k2, e)]
                spec_kv_lookup(s1, tok, k2, e) == spec_kv_lookup(s0, tok, k2, e)
            &&& r2 == s.epoch + 1
            &&& spec_kv_lookup(s2, tok, field, r2 as nat) == (match spec_kv_lookup(
                s0,
                tok,
                field,
                e,
            ) {
                Option::Some(Value::I64(x)) => Option::Some(Value::I64((x + d) as i64)),
                Option::None => Option::Some(Value::I64(d)),
                Option::Some(_) => Option::Some(Value::I64(d)),
            })
            &&& (spec_kv_lookup(s0, tok, field, e) matches Option::Some(v) ==> v matches Value::I64(
                _,
            ))
        },
{
    let s = spec_find_session(s0.sessions@, tok)->Some_0;
    let e = s.epoch as nat;
    assert forall|k2: Seq<char>|
        #![trigger spec_kv_lookup(s1, tok, k2, e)]
        spec_kv_lookup(s1, tok, k2, e) == spec_kv_lookup(s0, tok, k2, e) by {
        assert forall|e2: int|
            0 <= e2 <= e implies #[trigger] spec_shard_field(s1, tok, e2, k2) == spec_shard_field(
            s0,
            tok,
            e2,
            k2,
        ) by {}
        lemma_kv_lookup_same(s0, s1, tok, k2, e);
    }
    assert(s2.shards@ == s1.shards@);
    assert(spec_shard_field(s2, tok, (s.epoch + 1) as int, field) == spec_shard_field(
        s1,
        tok,
        (s.epoch + 1) as int,
        field,
    ));
}

} // verus!

//! In-memory model of the vault: the key/value table that backs client
//! data, the typed stores for the identity, sessions and groups, and the
//! pending-message queue.  The host binds this model to its durable
//! database; every operation here has exact contracts, and dumping and
//! restoring the key/value table round-trips.

use vstd::prelude::*;

use crate::errors::ProtoError;
use crate::groups::group_eqv;
use crate::types::{GroupState, PendingMessage, ProtocolIdentity, SessionState};

verus! {

/// The vault: the client key/value table, the singleton identity, per-peer
/// sessions, per-group states and the pending-message queue.
pub struct Vault {
    pub kv: Vec<(String, String)>,
    pub identity: Option<ProtocolIdentity>,
    pub sessions: Vec<(String, SessionState)>,
    pub groups: Vec<(String, GroupState)>,
    pub pending: Vec<PendingMessage>,
}

/// Every keyed table of the vault has pairwise distinct keys.
pub open spec fn vault_wf(v: Vault) -> bool {
    &&& forall|i: int, j: int|
        0 <= i < j < v.kv@.len() ==> (#[trigger] v.kv@[i]).0@ != (#[trigger] v.kv@[j]).0@
    &&& forall|i: int, j: int|
        0 <= i < j < v.sessions@.len() ==> (#[trigger] v.sessions@[i]).0@ != (
        #[trigger] v.sessions@[j]).0@
    &&& forall|i: int, j: int|
        0 <= i < j < v.groups@.len() ==> (#[trigger] v.groups@[i]).0@ != (
        #[trigger] v.groups@[j]).0@
    &&& forall|i: int, j: int|
        0 <= i < j < v.pending@.len() ==> (#[trigger] v.pending@[i]).id@ != (
        #[trigger] v.pending@[j]).id@
}

impl Vault {
    /// A fresh, empty vault.
    pub fn new() -> (r: Vault)
        ensures
            vault_wf(r),
            r.kv@.len() == 0,
            r.identity is None,
            r.sessions@.len() == 0,
            r.groups@.len() == 0,
            r.pending@.len() == 0,
    {
        Vault {
            kv: Vec::new(),
            identity: None,
            sessions: Vec::new(),
            groups: Vec::new(),
            pending: Vec::new(),
        }
    }
}

/// Store a client value under a key, replacing any existing value.
pub fn vault_save(vault: &mut Vault, key: String, value: String) -> (r: Result<(), ProtoError>)
    requires
        vault_wf(*old(vault)),
    ensures
        r is Ok,
        vault_wf(*final(vault)),
        (forall|j: int| 0 <= j < old(vault).kv@.len() ==> (#[trigger] old(vault).kv@[j]).0@ != key@)
            ==> final(vault).kv@ == old(vault).kv@.push((key, value)),
        (exists|j: int| 0 <= j < old(vault).kv@.len() && (#[trigger] old(vault).kv@[j]).0@ == key@)
            ==> exists|j: int|
            0 <= j < old(vault).kv@.len() && (#[trigger] old(vault).kv@[j]).0@ == key@ && final(vault).kv@ == old(vault).kv@.update(j, (key, value)),
        final(vault).identity == old(vault).identity,
        final(vault).sessions == old(vault).sessions,
        final(vault).groups == old(vault).groups,
        final(vault).pending == old(vault).pending,
{
    let mut i: usize = 0;
    while i < vault.kv.len()
        invariant
            i <= vault.kv@.len(),
            *vault == *old(vault),
            vault_wf(*old(vault)),
            forall|j: int| 0 <= j < i ==> (#[trigger] vault.kv@[j]).0@ != key@,
        decreases vault.kv@.len() - i,
    {
        if vault.kv[i].0 == key {
            let entry = &mut vault.kv[i];
            entry.0 = key;
            entry.1 = value;
            proof {
                let kvs = vault.kv@;
                assert(kvs == old(vault).kv@.update(i as int, (key, value)));
                assert forall|a: int, b: int|
                    0 <= a < b < kvs.len() implies (#[trigger] kvs[a]).0@ != (
                #[trigger] kvs[b]).0@ by {
                    assert(old(vault).kv@[a].0@ != old(vault).kv@[b].0@);
                    assert(old(vault).kv@[i as int].0@ == key@);
                }
            }
            return Ok(());
        }
        i = i + 1;
    }
    vault.kv.push((key, value));
    Ok(())
}

/// Load the client value stored under a key.
pub fn vault_load(vault: &Vault, key: &String) -> (r: Option<String>)
    ensures
        r matches Some(v) ==> exists|j: int|
            0 <= j < vault.kv@.len() && (#[trigger] vault.kv@[j]).0@ == key@ && vault.kv@[j].1@
                == v@,
        r is None ==> forall|j: int| 0 <= j < vault.kv@.len() ==> (#[trigger] vault.kv@[j]).0@ != key@,
{
    let mut i: usize = 0;
    while i < vault.kv.len()
        invariant
            i <= vault.kv@.len(),
            forall|j: int| 0 <= j < i ==> (#[trigger] vault.kv@[j]).0@ != key@,
        decreases vault.kv@.len() - i,
    {
        if vault.kv[i].0 == *key {
            return Some(vault.kv[i].1.clone());
        }
        i = i + 1;
    }
    None
}

/// Delete every client key/value pair; typed stores are untouched.
pub fn clear_vault(vault: &mut Vault) -> (r: Result<(), ProtoError>)
    requires
        vault_wf(*old(vault)),
    ensures
        r is Ok,
        vault_wf(*final(vault)),
        final(vault).kv@.len() == 0,
        final(vault).identity == old(vault).identity,
        final(vault).sessions == old(vault).sessions,
        final(vault).groups == old(vault).groups,
        final(vault).pending == old(vault).pending,
{
    vault.kv.clear();
    Ok(())
}

/// Copy out the whole client key/value table.
pub fn dump_vault(vault: &Vault) -> (r: Vec<(String, String)>)
    ensures
        r@ == vault.kv@,
{
    let mut out: Vec<(String, String)> = Vec::new();
    let mut i: usize = 0;
    while i < vault.kv.len()
        invariant
            i <= vault.kv@.len(),
            out@ == vault.kv@.subrange(0, i as int),
        decreases vault.kv@.len() - i,
    {
        out.push((vault.kv[i].0.clone(), vault.kv[i].1.clone()));
        i = i + 1;
        proof {
            assert((vault.kv@[i - 1].0, vault.kv@[i - 1].1) == vault.kv@[i - 1]);
            assert(out@ =~= vault.kv@.subrange(0, i as int));
        }
    }
    proof {
        assert(vault.kv@.subrange(0, vault.kv@.len() as int) =~= vault.kv@);
    }
    out
}

/// Write a dumped key/value table back, entry by entry.  Restoring a dump
/// into an empty vault reproduces the table exactly.
pub fn restore_vault(vault: &mut Vault, data: Vec<(String, String)>) -> (r: Result<(), ProtoError>)
    requires
        vault_wf(*old(vault)),
    ensures
        r is Ok,
        vault_wf(*final(vault)),
        (old(vault).kv@.len() == 0 && (forall|i: int, j: int|
            0 <= i < j < data@.len() ==> (#[trigger] data@[i]).0@ != (#[trigger] data@[j]).0@))
            ==> final(vault).kv@ == data@,
        final(vault).identity == old(vault).identity,
        final(vault).sessions == old(vault).sessions,
        final(vault).groups == old(vault).groups,
        final(vault).pending == old(vault).pending,
{
    let mut k: usize = 0;
    while k < data.len()
        invariant
            k <= data@.len(),
            vault_wf(*vault),
            (old(vault).kv@.len() == 0 && (forall|i: int, j: int|
                0 <= i < j < data@.len() ==> (#[trigger] data@[i]).0@ != (
                #[trigger] data@[j]).0@)) ==> vault.kv@ == data@.subrange(0, k as int),
            vault.identity == old(vault).identity,
            vault.sessions == old(vault).sessions,
            vault.groups == old(vault).groups,
            vault.pending == old(vault).pending,
        decreases data@.len() - k,
    {
        let key = data[k].0.clone();
        let value = data[k].1.clone();
        match vault_save(vault, key, value) {
            Ok(()) => {},
            Err(e) => {
                return Err(e);
            },
        }
        k = k + 1;
        proof {
            if old(vault).kv@.len() == 0 && (forall|i: int, j: int|
                0 <= i < j < data@.len() ==> (#[trigger] data@[i]).0@ != (
                #[trigger] data@[j]).0@) {
                assert((data@[k - 1].0, data@[k - 1].1) == data@[k - 1]);
                assert(vault.kv@ =~= data@.subrange(0, k as int));
            }
        }
    }
    proof {
        assert(data@.subrange(0, data@.len() as int) =~= data@);
    }
    Ok(())
}

/// Queue an outgoing message, replacing any entry with the same id.
pub fn save_pending_message(vault: &mut Vault, msg: PendingMessage) -> (r: Result<(), ProtoError>)
    requires
        vault_wf(*old(vault)),
    ensures
        r is Ok,
        vault_wf(*final(vault)),
        (forall|j: int|
            0 <= j < old(vault).pending@.len() ==> (#[trigger] old(vault).pending@[j]).id@
                != msg.id@) ==> final(vault).pending@ == old(vault).pending@.push(msg),
        (exists|j: int|
            0 <= j < old(vault).pending@.len() && (#[trigger] old(vault).pending@[j]).id@
                == msg.id@) ==> exists|j: int|
            0 <= j < old(vault).pending@.len() && (#[trigger] old(vault).pending@[j]).id@ == msg.id@
                && final(vault).pending@ == old(vault).pending@.update(j, msg),
        final(vault).identity == old(vault).identity,
        final(vault).sessions == old(vault).sessions,
        final(vault).groups == old(vault).groups,
        final(vault).kv == old(vault).kv,
{
    let mut i: usize = 0;
    while i < vault.pending.len()
        invariant
            i <= vault.pending@.len(),
            *vault == *old(vault),
            vault_wf(*old(vault)),
            forall|j: int| 0 <= j < i ==> (#[trigger] vault.pending@[j]).id@ != msg.id@,
        decreases vault.pending@.len() - i,
    {
        if vault.pending[i].id == msg.id {
            let entry = &mut vault.pending[i];
            *entry = msg;
            proof {
                let ps = vault.pending@;
                assert(ps == old(vault).pending@.update(i as int, msg));
                assert forall|a: int, b: int|
                    0 <= a < b < ps.len() implies (#[trigger] ps[a]).id@ != (
                #[trigger] ps[b]).id@ by {
                    assert(old(vault).pending@[a].id@ != old(vault).pending@[b].id@);
                    assert(old(vault).pending@[i as int].id@ == msg.id@);
                }
            }
            return Ok(());
        }
        i = i + 1;
    }
    vault.pending.push(msg);
    Ok(())
}

/// All queued outgoing messages.
pub fn get_pending_messages(vault: &Vault) -> (r: Result<Vec<PendingMessage>, ProtoError>)
    ensures
        r matches Ok(v) ==> v@ == vault.pending@,
        r is Ok,
{
    let mut out: Vec<PendingMessage> = Vec::new();
    let mut i: usize = 0;
    while i < vault.pending.len()
        invariant
            i <= vault.pending@.len(),
            out@ == vault.pending@.subrange(0, i as int),
        decreases vault.pending@.len() - i,
    {
        let m = &vault.pending[i];
        out.push(
            PendingMessage {
                id: m.id.clone(),
                recipient_hash: m.recipient_hash.clone(),
                body: m.body.clone(),
                timestamp: m.timestamp,
                retries: m.retries,
            },
        );
        i = i + 1;
        proof {
            assert(out@.last() == vault.pending@[i - 1]);
            assert(out@ =~= vault.pending@.subrange(0, i as int));
        }
    }
    proof {
        assert(vault.pending@.subrange(0, vault.pending@.len() as int) =~= vault.pending@);
    }
    Ok(out)
}

/// Drop the queued message with the given id, if any.
pub fn remove_pending_message(vault: &mut Vault, id: &String) -> (r: Result<(), ProtoError>)
    requires
        vault_wf(*old(vault)),
    ensures
        r is Ok,
        vault_wf(*final(vault)),
        (forall|j: int|
            0 <= j < old(vault).pending@.len() ==> (#[trigger] old(vault).pending@[j]).id@ != id@)
            ==> final(vault).pending == old(vault).pending,
        (exists|j: int|
            0 <= j < old(vault).pending@.len() && (#[trigger] old(vault).pending@[j]).id@ == id@)
            ==> exists|j: int|
            0 <= j < old(vault).pending@.len() && (#[trigger] old(vault).pending@[j]).id@ == id@
                && final(vault).pending@ == old(vault).pending@.remove(j),
        final(vault).identity == old(vault).identity,
        final(vault).sessions == old(vault).sessions,
        final(vault).groups == old(vault).groups,
        final(vault).kv == old(vault).kv,
{
    let mut i: usize = 0;
    while i < vault.pending.len()
        invariant
            i <= vault.pending@.len(),
            *vault == *old(vault),
            vault_wf(*old(vault)),
            forall|j: int| 0 <= j < i ==> (#[trigger] vault.pending@[j]).id@ != id@,
        decreases vault.pending@.len() - i,
    {
        if vault.pending[i].id == *id {
            vault.pending.remove(i);
            proof {
                let ps = vault.pending@;
                assert(ps == old(vault).pending@.remove(i as int));
                assert forall|a: int, b: int|
                    0 <= a < b < ps.len() implies (#[trigger] ps[a]).id@ != (
                #[trigger] ps[b]).id@ by {
                    let am: int = if a < i as int { a } else { a + 1 };
                    let bm: int = if b < i as int { b } else { b + 1 };
                    assert(ps[a] == old(vault).pending@[am]);
                    assert(ps[b] == old(vault).pending@[bm]);
                    assert(old(vault).pending@[am].id@ != old(vault).pending@[bm].id@);
                }
            }
            return Ok(());
        }
        i = i + 1;
    }
    Ok(())
}

impl ProtocolIdentity {
    /// Persist this identity as the vault's singleton identity.
    pub fn save_to_db(self, vault: &mut Vault) -> (r: Result<(), ProtoError>)
        requires
            vault_wf(*old(vault)),
        ensures
            r is Ok,
            vault_wf(*final(vault)),
            final(vault).identity == Some(self),
            final(vault).kv == old(vault).kv,
            final(vault).sessions == old(vault).sessions,
            final(vault).groups == old(vault).groups,
            final(vault).pending == old(vault).pending,
    {
        vault.identity = Some(self);
        Ok(())
    }

    /// The vault's identity, if one was created.
    pub fn load_from_db(vault: &Vault) -> (r: Result<Option<&ProtocolIdentity>, ProtoError>)
        ensures
            r matches Ok(o) ==> match o {
                Some(id) => vault.identity == Some(*id),
                None => vault.identity is None,
            },
            r is Ok,
    {
        match &vault.identity {
            Some(id) => Ok(Some(id)),
            None => Ok(None),
        }
    }
}

impl SessionState {
    /// Persist this session under the peer's stable hash.
    pub fn save_to_db(self, vault: &mut Vault, peer_hash: &String) -> (r: Result<(), ProtoError>)
        requires
            vault_wf(*old(vault)),
        ensures
            r is Ok,
            vault_wf(*final(vault)),
            (forall|j: int|
                0 <= j < old(vault).sessions@.len() ==> (#[trigger] old(vault).sessions@[j]).0@
                    != peer_hash@) ==> final(vault).sessions@.len() == old(vault).sessions@.len()
                + 1 && final(vault).sessions@.last().0@ == peer_hash@ && final(vault).sessions@.last().1 == self && final(vault).sessions@.subrange(
                0,
                old(vault).sessions@.len() as int,
            ) == old(vault).sessions@,
            (exists|j: int|
                0 <= j < old(vault).sessions@.len() && (#[trigger] old(vault).sessions@[j]).0@
                    == peer_hash@) ==> exists|j: int|
                0 <= j < old(vault).sessions@.len() && (#[trigger] old(vault).sessions@[j]).0@
                    == peer_hash@ && final(vault).sessions@.len() == old(vault).sessions@.len()
                    && final(vault).sessions@[j].0@ == peer_hash@ && final(vault).sessions@[j].1
                    == self && (forall|k: int|
                    0 <= k < old(vault).sessions@.len() && k != j
                        ==> final(vault).sessions@[k] == old(vault).sessions@[k]),
            final(vault).identity == old(vault).identity,
            final(vault).kv == old(vault).kv,
            final(vault).groups == old(vault).groups,
            final(vault).pending == old(vault).pending,
    {
        let mut i: usize = 0;
        while i < vault.sessions.len()
            invariant
                i <= vault.sessions@.len(),
                *vault == *old(vault),
                vault_wf(*old(vault)),
                forall|j: int| 0 <= j < i ==> (#[trigger] vault.sessions@[j]).0@ != peer_hash@,
            decreases vault.sessions@.len() - i,
        {
            if vault.sessions[i].0 == *peer_hash {
                let entry = &mut vault.sessions[i];
                entry.1 = self;
                proof {
                    let ss = vault.sessions@;
                    assert(ss[i as int].0 == old(vault).sessions@[i as int].0);
                    assert forall|a: int, b: int|
                        0 <= a < b < ss.len() implies (#[trigger] ss[a]).0@ != (
                    #[trigger] ss[b]).0@ by {
                        assert(old(vault).sessions@[a].0@ != old(vault).sessions@[b].0@);
                        assert(ss[a].0 == old(vault).sessions@[a].0);
                        assert(ss[b].0 == old(vault).sessions@[b].0);
                    }
                }
                return Ok(());
            }
            i = i + 1;
        }
        vault.sessions.push((peer_hash.clone(), self));
        Ok(())
    }

    /// Load a copy of the session stored under the peer's hash.
    pub fn load_from_db(vault: &Vault, peer_hash: &String) -> (r: Result<
        Option<SessionState>,
        ProtoError,
    >)
        ensures
            r matches Ok(o) ==> match o {
                Some(s) => exists|j: int|
                    0 <= j < vault.sessions@.len() && (#[trigger] vault.sessions@[j]).0@
                        == peer_hash@ && s@ == vault.sessions@[j].1@,
                None => forall|j: int|
                    0 <= j < vault.sessions@.len() ==> (#[trigger] vault.sessions@[j]).0@
                        != peer_hash@,
            },
            r is Ok,
    {
        let mut i: usize = 0;
        while i < vault.sessions.len()
            invariant
                i <= vault.sessions@.len(),
                forall|j: int| 0 <= j < i ==> (#[trigger] vault.sessions@[j]).0@ != peer_hash@,
            decreases vault.sessions@.len() - i,
        {
            if vault.sessions[i].0 == *peer_hash {
                return Ok(Some(vault.sessions[i].1.duplicate()));
            }
            i = i + 1;
        }
        Ok(None)
    }
}

impl GroupState {
    /// Persist this group state under its group id.
    pub fn save_to_db(self, vault: &mut Vault) -> (r: Result<(), ProtoError>)
        requires
            vault_wf(*old(vault)),
        ensures
            r is Ok,
            vault_wf(*final(vault)),
            (forall|j: int|
                0 <= j < old(vault).groups@.len() ==> (#[trigger] old(vault).groups@[j]).0@
                    != self.group_id@) ==> final(vault).groups@.len() == old(vault).groups@.len()
                + 1 && final(vault).groups@.last().0@ == self.group_id@ && final(vault).groups@.last().1 == self && final(vault).groups@.subrange(
                0,
                old(vault).groups@.len() as int,
            ) == old(vault).groups@,
            (exists|j: int|
                0 <= j < old(vault).groups@.len() && (#[trigger] old(vault).groups@[j]).0@
                    == self.group_id@) ==> exists|j: int|
                0 <= j < old(vault).groups@.len() && (#[trigger] old(vault).groups@[j]).0@
                    == self.group_id@ && final(vault).groups@.len() == old(vault).groups@.len()
                    && final(vault).groups@[j].0@ == self.group_id@ && final(vault).groups@[j].1
                    == self && (forall|k: int|
                    0 <= k < old(vault).groups@.len() && k != j ==> final(vault).groups@[k] == old(vault).groups@[k]),
            final(vault).identity == old(vault).identity,
            final(vault).kv == old(vault).kv,
            final(vault).sessions == old(vault).sessions,
            final(vault).pending == old(vault).pending,
    {
        let key = self.group_id.clone();
        let mut i: usize = 0;
        while i < vault.groups.len()
            invariant
                i <= vault.groups@.len(),
                *vault == *old(vault),
                vault_wf(*old(vault)),
                key@ == self.group_id@,
                forall|j: int| 0 <= j < i ==> (#[trigger] vault.groups@[j]).0@ != self.group_id@,
            decreases vault.groups@.len() - i,
        {
            if vault.groups[i].0 == key {
                let entry = &mut vault.groups[i];
                entry.1 = self;
                proof {
                    let gs = vault.groups@;
                    assert(gs[i as int].0 == old(vault).groups@[i as int].0);
                    assert forall|a: int, b: int|
                        0 <= a < b < gs.len() implies (#[trigger] gs[a]).0@ != (
                    #[trigger] gs[b]).0@ by {
                        assert(old(vault).groups@[a].0@ != old(vault).groups@[b].0@);
                        assert(gs[a].0 == old(vault).groups@[a].0);
                        assert(gs[b].0 == old(vault).groups@[b].0);
                    }
                }
                return Ok(());
            }
            i = i + 1;
        }
        vault.groups.push((key, self));
        Ok(())
    }

    /// Load a copy of the group state stored under a group id.
    pub fn load_from_db(vault: &Vault, group_id: &String) -> (r: Result<
        Option<GroupState>,
        ProtoError,
    >)
        ensures
            r matches Ok(o) ==> match o {
                Some(g) => exists|j: int|
                    0 <= j < vault.groups@.len() && (#[trigger] vault.groups@[j]).0@ == group_id@
                        && group_eqv(g, vault.groups@[j].1),
                None => forall|j: int|
                    0 <= j < vault.groups@.len() ==> (#[trigger] vault.groups@[j]).0@ != group_id@,
            },
            r is Ok,
    {
        let mut i: usize = 0;
        while i < vault.groups.len()
            invariant
                i <= vault.groups@.len(),
                forall|j: int| 0 <= j < i ==> (#[trigger] vault.groups@[j]).0@ != group_id@,
            decreases vault.groups@.len() - i,
        {
            if vault.groups[i].0 == *group_id {
                return Ok(Some(vault.groups[i].1.duplicate()));
            }
            i = i + 1;
        }
        Ok(None)
    }
}

} // verus!

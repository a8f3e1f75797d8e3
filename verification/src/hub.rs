//! The game-hub contract: per-user NFT selections, run statistics with
//! range checks, and a keyring of public keys. All tables are keyed by the
//! calling principal; every operation validates before it mutates.

use vstd::prelude::*;
use crate::digest::{run_digest, digest_of, run_digest_input};
use crate::hub_events::{MainEvent, MainError};
use crate::pmap::PMap;
use crate::principal::Principal;

verus! {

/// Upper bound a run report may claim for defeated monsters.
pub const MAX_MONSTERS_DEFEATED: u32 = 1000;

/// Upper bound on either reported item list's length.
pub const MAX_ITEMS_REPORTED: usize = 100;

/// Upper bound a run report may claim for survival time.
pub const MAX_SURVIVAL_TIME: u64 = 1000 * 60 * 60 * 24;

/// One user's selection, as handed to external indexers.
pub struct UserSelection {
    pub user: Principal,
    pub selected_nfts: Vec<(Principal, u128)>,
}

/// Statistics of one finished run.
pub struct RunStats {
    pub user: Principal,
    pub monsters_defeated: u32,
    pub items_found: Vec<u128>,
    pub new_items_selected: Vec<u128>,
    pub survival_time: u64,
}

/// Field-for-field equality of run statistics, comparing lists by contents.
pub open spec fn stats_like(a: RunStats, b: RunStats) -> bool {
    &&& a.user == b.user
    &&& a.monsters_defeated == b.monsters_defeated
    &&& a.items_found@ == b.items_found@
    &&& a.new_items_selected@ == b.new_items_selected@
    &&& a.survival_time == b.survival_time
}

impl RunStats {
    /// An exact copy, built field by field.
    pub fn duplicate(&self) -> (r: RunStats)
        ensures
            stats_like(r, *self),
    {
        RunStats {
            user: self.user,
            monsters_defeated: self.monsters_defeated,
            items_found: copy_u128s(&self.items_found),
            new_items_selected: copy_u128s(&self.new_items_selected),
            survival_time: self.survival_time,
        }
    }
}

/// One user's keyring entry.
pub struct KeyringEntry {
    pub user: Principal,
    pub public_key: Vec<u8>,
    pub metadata: Option<String>,
}

/// Field-for-field equality of keyring entries, comparing the key by its
/// bytes.
pub open spec fn entry_like(a: KeyringEntry, b: KeyringEntry) -> bool {
    a.user == b.user && a.public_key@ == b.public_key@ && a.metadata == b.metadata
}

impl KeyringEntry {
    /// An exact copy, built field by field.
    pub fn duplicate(&self) -> (r: KeyringEntry)
        ensures
            entry_like(r, *self),
    {
        KeyringEntry {
            user: self.user,
            public_key: copy_bytes(&self.public_key),
            metadata: match &self.metadata {
                Some(s) => Some(s.clone()),
                None => None,
            },
        }
    }
}

/// The whole state of the hub contract.
pub struct MainContractState {
    pub admins: Vec<Principal>,
    pub user_nft_selections: PMap<Vec<(Principal, u128)>>,
    pub last_run_stats: PMap<RunStats>,
    pub keyring: PMap<KeyringEntry>,
}

/// Whether `s` names the same token twice.
pub open spec fn has_duplicate(s: Seq<(Principal, u128)>) -> bool {
    exists|i: int, j: int| 0 <= i < j < s.len() && s[i] == s[j]
}

/// Whether a run report stays inside the accepted ranges.
pub open spec fn valid_run_stats(
    monsters_defeated: u32,
    items_found: Seq<u128>,
    new_items_selected: Seq<u128>,
    survival_time: u64,
) -> bool {
    &&& monsters_defeated <= MAX_MONSTERS_DEFEATED
    &&& items_found.len() <= MAX_ITEMS_REPORTED
    &&& new_items_selected.len() <= MAX_ITEMS_REPORTED
    &&& survival_time <= MAX_SURVIVAL_TIME
}

impl MainContractState {
    /// The selection recorded for `p`, if any.
    pub open spec fn selections(self, p: Principal) -> Option<Seq<(Principal, u128)>> {
        match self.user_nft_selections.spec_get(p) {
            Some(v) => Some(v@),
            None => None,
        }
    }

    /// The last run statistics recorded for `p`, if any.
    pub open spec fn stats_of(self, p: Principal) -> Option<RunStats> {
        self.last_run_stats.spec_get(p)
    }

    /// The keyring entry recorded for `p`, if any.
    pub open spec fn key_of(self, p: Principal) -> Option<KeyringEntry> {
        self.keyring.spec_get(p)
    }

    /// Whether `p` administers the hub.
    pub open spec fn spec_is_admin(self, p: Principal) -> bool {
        self.admins@.contains(p)
    }

    /// The state invariant: the tables are well formed and the admin list
    /// holds no duplicates.
    pub open spec fn wf(self) -> bool {
        &&& self.user_nft_selections.wf()
        &&& self.last_run_stats.wf()
        &&& self.keyring.wf()
        &&& forall|i: int, j: int|
            0 <= i < j < self.admins@.len() ==> self.admins@[i] != self.admins@[j]
    }

    /// Seeds a fresh hub whose only admin is the seeding caller.
    pub fn new(first_admin: Principal) -> (r: MainContractState)
        ensures
            r.wf(),
            r.admins@ == seq![first_admin],
            forall|p: Principal| r.selections(p) is None,
            forall|p: Principal| r.stats_of(p) is None,
            forall|p: Principal| r.key_of(p) is None,
    {
        let mut admins: Vec<Principal> = Vec::new();
        admins.push(first_admin);
        proof {
            assert(admins@ =~= seq![first_admin]);
        }
        MainContractState {
            admins,
            user_nft_selections: PMap::new(),
            last_run_stats: PMap::new(),
            keyring: PMap::new(),
        }
    }

    /// Records the caller's NFT selection, overwriting any earlier one. An
    /// empty selection and a selection naming one token twice are rejected.
    pub fn nfts_selected_by_user(&mut self, user: Principal, selected_nfts: Vec<(Principal, u128)>)
        -> (r: Result<MainEvent, MainError>)
        requires
            old(self).wf(),
        ensures
            final(self).wf(),
            selected_nfts@.len() == 0 ==> r == Err::<MainEvent, MainError>(
                MainError::EmptySelection,
            ) && *final(self) == *old(self),
            selected_nfts@.len() > 0 && has_duplicate(selected_nfts@) ==> r == Err::<
                MainEvent,
                MainError,
            >(MainError::DuplicateSelection) && *final(self) == *old(self),
            selected_nfts@.len() > 0 && !has_duplicate(selected_nfts@) ==> {
                &&& r matches Ok(MainEvent::NFTsSelected { user: u, selected_nfts: s }) && u
                    == user && s@ == selected_nfts@
                &&& final(self).selections(user) == Some(selected_nfts@)
                &&& forall|q: Principal|
                    q != user ==> final(self).selections(q) == old(self).selections(q)
                &&& final(self).admins@ == old(self).admins@
                &&& final(self).last_run_stats == old(self).last_run_stats
                &&& final(self).keyring == old(self).keyring
            },
    {
        let n = selected_nfts.len();
        if n == 0 {
            return Err(MainError::EmptySelection);
        }
        let mut i: usize = 0;
        while i < n
            invariant
                i <= n,
                n == selected_nfts@.len(),
                *self == *old(self),
                old(self).wf(),
                forall|a: int, b: int|
                    0 <= a < b < i ==> selected_nfts@[a] != selected_nfts@[b],
            decreases n - i,
        {
            let mut j: usize = 0;
            while j < i
                invariant
                    j <= i < n,
                    n == selected_nfts@.len(),
                    *self == *old(self),
                    old(self).wf(),
                    forall|b: int| 0 <= b < j ==> selected_nfts@[b] != selected_nfts@[i as int],
                decreases i - j,
            {
                let a = selected_nfts[j];
                let b = selected_nfts[i];
                if a.0 == b.0 && a.1 == b.1 {
                    proof {
                        assert(selected_nfts@[j as int] == selected_nfts@[i as int]);
                        assert(has_duplicate(selected_nfts@));
                    }
                    return Err(MainError::DuplicateSelection);
                }
                j = j + 1;
            }
            i = i + 1;
        }
        proof {
            if has_duplicate(selected_nfts@) {
                let (a, b): (int, int) = choose|a: int, b: int|
                    0 <= a < b < selected_nfts@.len() && selected_nfts@[a] == selected_nfts@[b];
                assert(false);
            }
        }
        let stored = copy_pairs(&selected_nfts);
        self.user_nft_selections.set(user, stored);
        Ok(MainEvent::NFTsSelected { user, selected_nfts })
    }

    /// Adds an admin. Only an admin may do so; adding an existing admin
    /// changes nothing and still succeeds.
    pub fn add_admin(&mut self, caller: Principal, new_admin: Principal) -> (r: Result<
        MainEvent,
        MainError,
    >)
        requires
            old(self).wf(),
        ensures
            final(self).wf(),
            !old(self).spec_is_admin(caller) ==> r == Err::<MainEvent, MainError>(
                MainError::Unauthorized,
            ) && *final(self) == *old(self),
            old(self).spec_is_admin(caller) ==> {
                &&& r matches Ok(MainEvent::AdminAdded(a)) && a == new_admin
                &&& final(self).admins@ == if old(self).spec_is_admin(new_admin) {
                    old(self).admins@
                } else {
                    old(self).admins@.push(new_admin)
                }
                &&& final(self).spec_is_admin(new_admin)
                &&& final(self).user_nft_selections == old(self).user_nft_selections
                &&& final(self).last_run_stats == old(self).last_run_stats
                &&& final(self).keyring == old(self).keyring
            },
    {
        if !contains_principal(&self.admins, caller) {
            return Err(MainError::Unauthorized);
        }
        if !contains_principal(&self.admins, new_admin) {
            let ghost pre = self.admins@;
            self.admins.push(new_admin);
            proof {
                assert(self.admins@[pre.len() as int] == new_admin);
                assert(self.admins@.contains(new_admin));
                assert forall|i: int, j: int|
                    0 <= i < j < self.admins@.len() implies self.admins@[i] != self.admins@[j] by {
                    if j == pre.len() {
                        assert(self.admins@[i] == pre[i]);
                        assert(pre.contains(pre[i]));
                    }
                }
            }
        }
        Ok(MainEvent::AdminAdded(new_admin))
    }

    /// The token ids `user` selected, if they selected at all.
    pub fn query_user_nfts(&self, user: Principal) -> (r: Option<Vec<u128>>)
        ensures
            match r {
                Some(v) => self.selections(user) is Some && v@.len() == self.selections(
                    user,
                ).unwrap().len() && forall|i: int|
                    0 <= i < v@.len() ==> v@[i] == self.selections(user).unwrap()[i].1,
                None => self.selections(user) is None,
            },
    {
        match self.user_nft_selections.get(user) {
            None => None,
            Some(sel) => {
                let mut ids: Vec<u128> = Vec::new();
                let mut i: usize = 0;
                let n = sel.len();
                while i < n
                    invariant
                        i <= n,
                        n == sel@.len(),
                        ids@.len() == i,
                        forall|k: int| 0 <= k < i ==> ids@[k] == sel@[k].1,
                    decreases n - i,
                {
                    ids.push(sel[i].1);
                    i = i + 1;
                }
                Some(ids)
            },
        }
    }

    /// All admins, copied out.
    pub fn query_admins(&self) -> (r: Vec<Principal>)
        ensures
            r@ == self.admins@,
    {
        copy_principals(&self.admins)
    }

    /// Every user with a selection, with that selection, copied out.
    pub fn query_all_user_selections(&self) -> (r: Vec<UserSelection>)
        requires
            self.wf(),
        ensures
            r@.len() == self.user_nft_selections.entries_seq().len(),
            forall|i: int|
                0 <= i < r@.len() ==> self.selections(#[trigger] r@[i].user) == Some(
                    r@[i].selected_nfts@,
                ),
            forall|i: int, j: int| 0 <= i < j < r@.len() ==> r@[i].user != r@[j].user,
            forall|p: Principal|
                self.selections(p) is Some ==> exists|i: int| 0 <= i < r@.len() && r@[i].user == p,
    {
        let entries = self.user_nft_selections.entries();
        let mut r: Vec<UserSelection> = Vec::new();
        let mut i: usize = 0;
        let n = entries.len();
        while i < n
            invariant
                i <= n,
                n == entries@.len(),
                entries@ == self.user_nft_selections.entries_seq(),
                r@.len() == i,
                forall|k: int|
                    0 <= k < i ==> #[trigger] r@[k].user == entries@[k].0 && r@[k].selected_nfts@
                        == entries@[k].1@,
            decreases n - i,
        {
            r.push(
                UserSelection { user: entries[i].0, selected_nfts: copy_pairs(&entries[i].1) },
            );
            i = i + 1;
        }
        proof {
            self.user_nft_selections.lemma_entries();
            let es = self.user_nft_selections.entries_seq();
            assert forall|p: Principal| self.selections(p) is Some implies exists|i: int|
                0 <= i < r@.len() && r@[i].user == p by {
                let i = choose|i: int|
                    0 <= i < es.len() && es[i] == (p, self.user_nft_selections.spec_get(p).unwrap());
                assert(r@[i].user == p);
            }
        }
        r
    }

    /// Starts a run over every user with a selection, returning the
    /// participant list and a digest of the run creation as proof. Fails
    /// when nobody has selected anything.
    pub fn start_run(&self, initiator: Principal) -> (r: Result<MainEvent, MainError>)
        requires
            self.wf(),
        ensures
            self.user_nft_selections.entries_seq().len() == 0 ==> r == Err::<MainEvent, MainError>(
                MainError::NoParticipants,
            ),
            self.user_nft_selections.entries_seq().len() > 0 ==> (r matches Ok(
                MainEvent::RunStarted { initiator: who, participants, signature },
            ) && {
                &&& who == initiator
                &&& participants@.len() == self.user_nft_selections.entries_seq().len()
                &&& forall|i: int|
                    0 <= i < participants@.len() ==> self.selections(
                        #[trigger] participants@[i].0,
                    ) == Some(participants@[i].1@)
                &&& signature@ == digest_of(run_digest_input(initiator, participants@))
            }),
    {
        let entries = self.user_nft_selections.entries();
        let n = entries.len();
        if n == 0 {
            return Err(MainError::NoParticipants);
        }
        let mut participants: Vec<(Principal, Vec<(Principal, u128)>)> = Vec::new();
        let mut i: usize = 0;
        while i < n
            invariant
                i <= n,
                n == entries@.len(),
                entries@ == self.user_nft_selections.entries_seq(),
                participants@.len() == i,
                forall|k: int|
                    0 <= k < i ==> #[trigger] participants@[k].0 == entries@[k].0
                        && participants@[k].1@ == entries@[k].1@,
            decreases n - i,
        {
            participants.push((entries[i].0, copy_pairs(&entries[i].1)));
            i = i + 1;
        }
        proof {
            self.user_nft_selections.lemma_entries();
        }
        let signature = run_digest(initiator, &participants);
        Ok(MainEvent::RunStarted { initiator, participants, signature })
    }

    /// Records the caller's run report, after range checks on every claimed
    /// statistic.
    pub fn finish_run(
        &mut self,
        user: Principal,
        monsters_defeated: u32,
        items_found: Vec<u128>,
        new_items_selected: Vec<u128>,
        survival_time: u64,
    ) -> (r: Result<MainEvent, MainError>)
        requires
            old(self).wf(),
        ensures
            final(self).wf(),
            !valid_run_stats(monsters_defeated, items_found@, new_items_selected@, survival_time)
                ==> r == Err::<MainEvent, MainError>(MainError::InvalidStats)
                    && *final(self) == *old(self),
            valid_run_stats(monsters_defeated, items_found@, new_items_selected@, survival_time)
                ==> {
                &&& r matches Ok(MainEvent::RunFinished {
                    user: u,
                    monsters_defeated: m,
                    items_found: f,
                    new_items_selected: s,
                    survival_time: t,
                }) && u == user && m == monsters_defeated && f@ == items_found@ && s@
                    == new_items_selected@ && t == survival_time
                &&& final(self).stats_of(user) matches Some(st) && stats_like(st, RunStats {
                    user,
                    monsters_defeated,
                    items_found,
                    new_items_selected,
                    survival_time,
                })
                &&& forall|q: Principal|
                    q != user ==> final(self).stats_of(q) == old(self).stats_of(q)
                &&& final(self).admins@ == old(self).admins@
                &&& final(self).user_nft_selections == old(self).user_nft_selections
                &&& final(self).keyring == old(self).keyring
            },
    {
        if monsters_defeated > MAX_MONSTERS_DEFEATED {
            return Err(MainError::InvalidStats);
        }
        if items_found.len() > MAX_ITEMS_REPORTED {
            return Err(MainError::InvalidStats);
        }
        if new_items_selected.len() > MAX_ITEMS_REPORTED {
            return Err(MainError::InvalidStats);
        }
        if survival_time > MAX_SURVIVAL_TIME {
            return Err(MainError::InvalidStats);
        }
        let stats = RunStats {
            user,
            monsters_defeated,
            items_found: copy_u128s(&items_found),
            new_items_selected: copy_u128s(&new_items_selected),
            survival_time,
        };
        self.last_run_stats.set(user, stats);
        Ok(MainEvent::RunFinished {
            user,
            monsters_defeated,
            items_found,
            new_items_selected,
            survival_time,
        })
    }

    /// Announces the caller's newly selected weapon. Nothing is stored; the
    /// event is the whole effect.
    pub fn set_new_selected_weapon(&self, user: Principal, token_id: u128) -> (r: MainEvent)
        ensures
            r matches MainEvent::NewWeaponSelected { user: u, token_id: t } && u == user && t
                == token_id,
    {
        MainEvent::NewWeaponSelected { user, token_id }
    }

    /// Records the caller's run report and hands the same report back, after
    /// the same range checks as `finish_run`.
    pub fn run_finished(&mut self, user: Principal, new_status: RunStats) -> (r: Result<
        RunStats,
        MainError,
    >)
        requires
            old(self).wf(),
        ensures
            final(self).wf(),
            !valid_run_stats(
                new_status.monsters_defeated,
                new_status.items_found@,
                new_status.new_items_selected@,
                new_status.survival_time,
            ) ==> r == Err::<RunStats, MainError>(MainError::InvalidStats)
                && *final(self) == *old(self),
            valid_run_stats(
                new_status.monsters_defeated,
                new_status.items_found@,
                new_status.new_items_selected@,
                new_status.survival_time,
            ) ==> {
                &&& r matches Ok(st) && stats_like(st, new_status)
                &&& final(self).stats_of(user) matches Some(st) && stats_like(st, new_status)
                &&& forall|q: Principal|
                    q != user ==> final(self).stats_of(q) == old(self).stats_of(q)
                &&& final(self).admins@ == old(self).admins@
                &&& final(self).user_nft_selections == old(self).user_nft_selections
                &&& final(self).keyring == old(self).keyring
            },
    {
        if new_status.monsters_defeated > MAX_MONSTERS_DEFEATED {
            return Err(MainError::InvalidStats);
        }
        if new_status.items_found.len() > MAX_ITEMS_REPORTED {
            return Err(MainError::InvalidStats);
        }
        if new_status.new_items_selected.len() > MAX_ITEMS_REPORTED {
            return Err(MainError::InvalidStats);
        }
        if new_status.survival_time > MAX_SURVIVAL_TIME {
            return Err(MainError::InvalidStats);
        }
        self.last_run_stats.set(user, new_status.duplicate());
        Ok(new_status)
    }

    /// Adds a public key for the caller; a caller with a key already on file
    /// is refused.
    pub fn add_key(&mut self, user: Principal, public_key: Vec<u8>, metadata: Option<String>)
        -> (r: Result<MainEvent, MainError>)
        requires
            old(self).wf(),
        ensures
            final(self).wf(),
            old(self).key_of(user) is Some ==> r == Err::<MainEvent, MainError>(
                MainError::KeyAlreadyExists,
            ) && *final(self) == *old(self),
            old(self).key_of(user) is None ==> {
                &&& r matches Ok(MainEvent::KeyAdded { user: u, public_key: k, metadata: m }) && u
                    == user && k@ == public_key@ && m == metadata
                &&& final(self).key_of(user) matches Some(e) && entry_like(e, KeyringEntry {
                    user,
                    public_key,
                    metadata,
                })
                &&& forall|q: Principal| q != user ==> final(self).key_of(q) == old(self).key_of(q)
                &&& final(self).admins@ == old(self).admins@
                &&& final(self).user_nft_selections == old(self).user_nft_selections
                &&& final(self).last_run_stats == old(self).last_run_stats
            },
    {
        if self.keyring.contains(user) {
            return Err(MainError::KeyAlreadyExists);
        }
        let entry = KeyringEntry {
            user,
            public_key: copy_bytes(&public_key),
            metadata: match &metadata {
                Some(s) => Some(s.clone()),
                None => None,
            },
        };
        self.keyring.set(user, entry);
        Ok(MainEvent::KeyAdded { user, public_key, metadata })
    }

    /// Removes the caller's key; a caller with no key on file is refused.
    pub fn remove_key(&mut self, user: Principal) -> (r: Result<MainEvent, MainError>)
        requires
            old(self).wf(),
        ensures
            final(self).wf(),
            old(self).key_of(user) is None ==> r == Err::<MainEvent, MainError>(
                MainError::KeyNotFound,
            ) && *final(self) == *old(self),
            old(self).key_of(user) is Some ==> {
                &&& r matches Ok(MainEvent::KeyRemoved { user: u }) && u == user
                &&& final(self).key_of(user) is None
                &&& forall|q: Principal| q != user ==> final(self).key_of(q) == old(self).key_of(q)
                &&& final(self).admins@ == old(self).admins@
                &&& final(self).user_nft_selections == old(self).user_nft_selections
                &&& final(self).last_run_stats == old(self).last_run_stats
            },
    {
        if !self.keyring.contains(user) {
            return Err(MainError::KeyNotFound);
        }
        self.keyring.remove(user);
        Ok(MainEvent::KeyRemoved { user })
    }

    /// Replaces the caller's key; a caller with no key on file is refused.
    pub fn update_key(&mut self, user: Principal, public_key: Vec<u8>, metadata: Option<String>)
        -> (r: Result<MainEvent, MainError>)
        requires
            old(self).wf(),
        ensures
            final(self).wf(),
            old(self).key_of(user) is None ==> r == Err::<MainEvent, MainError>(
                MainError::KeyNotFound,
            ) && *final(self) == *old(self),
            old(self).key_of(user) is Some ==> {
                &&& r matches Ok(MainEvent::KeyUpdated { user: u, public_key: k, metadata: m })
                    && u == user && k@ == public_key@ && m == metadata
                &&& final(self).key_of(user) matches Some(e) && entry_like(e, KeyringEntry {
                    user,
                    public_key,
                    metadata,
                })
                &&& forall|q: Principal| q != user ==> final(self).key_of(q) == old(self).key_of(q)
                &&& final(self).admins@ == old(self).admins@
                &&& final(self).user_nft_selections == old(self).user_nft_selections
                &&& final(self).last_run_stats == old(self).last_run_stats
            },
    {
        if !self.keyring.contains(user) {
            return Err(MainError::KeyNotFound);
        }
        let entry = KeyringEntry {
            user,
            public_key: copy_bytes(&public_key),
            metadata: match &metadata {
                Some(s) => Some(s.clone()),
                None => None,
            },
        };
        self.keyring.set(user, entry);
        Ok(MainEvent::KeyUpdated { user, public_key, metadata })
    }

    /// The keyring entry for `user`, copied out.
    pub fn query_key(&self, user: Principal) -> (r: Option<KeyringEntry>)
        ensures
            match r {
                Some(e) => self.key_of(user) is Some && entry_like(e, self.key_of(user).unwrap()),
                None => self.key_of(user) is None,
            },
    {
        match self.keyring.get(user) {
            Some(e) => Some(e.duplicate()),
            None => None,
        }
    }

    /// Every keyring entry, copied out in storage order: the entry copied at
    /// position `i` is the one the keyring stores under its `i`-th key.
    pub fn query_all_keys(&self) -> (r: Vec<KeyringEntry>)
        requires
            self.wf(),
        ensures
            r@.len() == self.keyring.entries_seq().len(),
            forall|i: int|
                0 <= i < r@.len() ==> entry_like(
                    #[trigger] r@[i],
                    self.keyring.entries_seq()[i].1,
                ),
            forall|i: int|
                0 <= i < r@.len() ==> self.key_of(#[trigger] self.keyring.entries_seq()[i].0)
                    == Some(self.keyring.entries_seq()[i].1),
    {
        let entries = self.keyring.entries();
        let mut r: Vec<KeyringEntry> = Vec::new();
        let mut i: usize = 0;
        let n = entries.len();
        while i < n
            invariant
                i <= n,
                n == entries@.len(),
                entries@ == self.keyring.entries_seq(),
                r@.len() == i,
                forall|k: int| 0 <= k < i ==> entry_like(#[trigger] r@[k], entries@[k].1),
            decreases n - i,
        {
            r.push(entries[i].1.duplicate());
            i = i + 1;
        }
        proof {
            self.keyring.lemma_entries();
        }
        r
    }

    /// The full state, copied out for external indexers.
    pub fn query_state(&self) -> (r: IoMainContractState)
        requires
            self.wf(),
        ensures
            r.admins@ == self.admins@,
            r.user_nft_selections@.len() == self.user_nft_selections.entries_seq().len(),
            forall|i: int|
                0 <= i < r.user_nft_selections@.len() ==> self.selections(
                    #[trigger] r.user_nft_selections@[i].user,
                ) == Some(r.user_nft_selections@[i].selected_nfts@),
            r.keyring@.len() == self.keyring.entries_seq().len(),
            forall|i: int|
                0 <= i < r.keyring@.len() ==> entry_like(
                    #[trigger] r.keyring@[i],
                    self.keyring.entries_seq()[i].1,
                ),
            r.last_run_stats@.len() == self.last_run_stats.entries_seq().len(),
            forall|i: int|
                0 <= i < r.last_run_stats@.len() ==> stats_like(
                    #[trigger] r.last_run_stats@[i],
                    self.last_run_stats.entries_seq()[i].1,
                ),
    {
        IoMainContractState::from(self)
    }
}

/// What a state query hands out: the whole hub state as plain lists.
pub struct IoMainContractState {
    pub admins: Vec<Principal>,
    pub user_nft_selections: Vec<UserSelection>,
    pub last_run_stats: Vec<RunStats>,
    pub keyring: Vec<KeyringEntry>,
}

impl IoMainContractState {
    /// Builds the dump from the live state.
    pub fn from(state: &MainContractState) -> (r: IoMainContractState)
        requires
            state.wf(),
        ensures
            r.admins@ == state.admins@,
            r.user_nft_selections@.len() == state.user_nft_selections.entries_seq().len(),
            forall|i: int|
                0 <= i < r.user_nft_selections@.len() ==> state.selections(
                    #[trigger] r.user_nft_selections@[i].user,
                ) == Some(r.user_nft_selections@[i].selected_nfts@),
            r.keyring@.len() == state.keyring.entries_seq().len(),
            forall|i: int|
                0 <= i < r.keyring@.len() ==> entry_like(
                    #[trigger] r.keyring@[i],
                    state.keyring.entries_seq()[i].1,
                ),
            r.last_run_stats@.len() == state.last_run_stats.entries_seq().len(),
            forall|i: int|
                0 <= i < r.last_run_stats@.len() ==> stats_like(
                    #[trigger] r.last_run_stats@[i],
                    state.last_run_stats.entries_seq()[i].1,
                ),
    {
        let admins = copy_principals(&state.admins);
        let user_nft_selections = state.query_all_user_selections();
        let keyring = state.query_all_keys();
        let stats_entries = state.last_run_stats.entries();
        let mut last_run_stats: Vec<RunStats> = Vec::new();
        let mut i: usize = 0;
        let n = stats_entries.len();
        while i < n
            invariant
                i <= n,
                n == stats_entries@.len(),
                stats_entries@ == state.last_run_stats.entries_seq(),
                last_run_stats@.len() == i,
                forall|k: int|
                    0 <= k < i ==> stats_like(#[trigger] last_run_stats@[k], stats_entries@[k].1),
            decreases n - i,
        {
            last_run_stats.push(stats_entries[i].1.duplicate());
            i = i + 1;
        }
        IoMainContractState { admins, user_nft_selections, last_run_stats, keyring }
    }
}

/// Copies a list of token references element by element.
pub fn copy_pairs(v: &Vec<(Principal, u128)>) -> (r: Vec<(Principal, u128)>)
    ensures
        r@ == v@,
{
    let mut r: Vec<(Principal, u128)> = Vec::new();
    let mut i: usize = 0;
    while i < v.len()
        invariant
            i <= v@.len(),
            r@ =~= v@.subrange(0, i as int),
        decreases v@.len() - i,
    {
        r.push(v[i]);
        i = i + 1;
    }
    proof {
        assert(r@ =~= v@);
    }
    r
}

/// Copies a list of principals element by element.
pub fn copy_principals(v: &Vec<Principal>) -> (r: Vec<Principal>)
    ensures
        r@ == v@,
{
    let mut r: Vec<Principal> = Vec::new();
    let mut i: usize = 0;
    while i < v.len()
        invariant
            i <= v@.len(),
            r@ =~= v@.subrange(0, i as int),
        decreases v@.len() - i,
    {
        r.push(v[i]);
        i = i + 1;
    }
    proof {
        assert(r@ =~= v@);
    }
    r
}

/// Copies a list of token ids element by element.
pub fn copy_u128s(v: &Vec<u128>) -> (r: Vec<u128>)
    ensures
        r@ == v@,
{
    let mut r: Vec<u128> = Vec::new();
    let mut i: usize = 0;
    while i < v.len()
        invariant
            i <= v@.len(),
            r@ =~= v@.subrange(0, i as int),
        decreases v@.len() - i,
    {
        r.push(v[i]);
        i = i + 1;
    }
    proof {
        assert(r@ =~= v@);
    }
    r
}

/// Copies a byte list element by element.
pub fn copy_bytes(v: &Vec<u8>) -> (r: Vec<u8>)
    ensures
        r@ == v@,
{
    let mut r: Vec<u8> = Vec::new();
    let mut i: usize = 0;
    while i < v.len()
        invariant
            i <= v@.len(),
            r@ =~= v@.subrange(0, i as int),
        decreases v@.len() - i,
    {
        r.push(v[i]);
        i = i + 1;
    }
    proof {
        assert(r@ =~= v@);
    }
    r
}

/// Whether `p` occurs in `v`.
pub fn contains_principal(v: &Vec<Principal>, p: Principal) -> (r: bool)
    ensures
        r == v@.contains(p),
{
    let mut i: usize = 0;
    let n = v.len();
    while i < n
        invariant
            i <= n,
            n == v@.len(),
            forall|k: int| 0 <= k < i ==> v@[k] != p,
        decreases n - i,
    {
        if v[i] == p {
            proof {
                assert(v@[i as int] == p);
            }
            return true;
        }
        i = i + 1;
    }
    proof {
        if v@.contains(p) {
            let k = choose|k: int| 0 <= k < v@.len() && v@[k] == p;
            assert(false);
        }
    }
    false
}

} // verus!

//! The unlocked session: the open vault lives in memory only while unlocked
//! and is reachable only through accessors that report
//! [`KeyhavenError::Locked`] otherwise. Locking wipes the decrypted model and
//! the vault key before dropping them; an inactivity deadline and an optional
//! lock-on-blur trigger locking automatically.

pub mod auto_lock;

use vstd::prelude::*;
use zeroize::Zeroize;

use crate::error::KeyhavenError;
use crate::model::{entries_view, fields_view, Entry, EntrySpec, Field, VaultModel, VaultModelSpec};
use crate::vault::repository::{OpenVault, OpenVaultView};
use auto_lock::{after_activity, armed, expired_at, AutoLock, AutoLockState, Clock, SystemClock};

verus! {

/// Whether the auto-lock check locks session `s` at the clock reading `now`:
/// a vault is open and the deadline has passed.
pub open spec fn locks_at(s: SessionState, now: u64) -> bool {
    s.vault is Some && expired_at(s.auto_lock, now)
}

/// Something to tell when the vault locks (the interface, in production).
pub trait LockNotifier {
    /// Called once each time the vault is locked, after the secrets were
    /// wiped and dropped.
    fn notify_locked(&self);
}

/// Calls `<String as Zeroize>::zeroize`. Claimed (zeroize's source): the
/// bytes are overwritten with zeros and the string is cleared.
#[verifier::external_body]
fn wipe_string(s: &mut String)
    ensures
        final(s)@ == Seq::<char>::empty(),
{
    s.zeroize()
}

/// Whether `after` is `before` with its title (when present), and every
/// field's label and value, wiped to the empty text; ids, service, types,
/// secrecy and times are kept.
pub open spec fn wiped_entry(before: EntrySpec, after: EntrySpec) -> bool {
    &&& after.id == before.id
    &&& after.service_ref == before.service_ref
    &&& after.created_at == before.created_at
    &&& after.updated_at == before.updated_at
    &&& after.title == (match before.title {
        Some(_) => Some(Seq::<char>::empty()),
        None => None,
    })
    &&& after.fields.len() == before.fields.len()
    &&& forall|k: int| 0 <= k < before.fields.len() ==> {
        &&& (#[trigger] after.fields[k]).label == Seq::<char>::empty()
        &&& after.fields[k].value == Seq::<char>::empty()
        &&& after.fields[k].id == before.fields[k].id
        &&& after.fields[k].field_type == before.fields[k].field_type
        &&& after.fields[k].secret == before.fields[k].secret
    }
}

/// Whether `after` is `before` with every entry wiped.
pub open spec fn wiped_model(before: VaultModelSpec, after: VaultModelSpec) -> bool {
    &&& after.entries.len() == before.entries.len()
    &&& forall|i: int| 0 <= i < before.entries.len() ==> wiped_entry(before.entries[i], #[trigger] after.entries[i])
    &&& after.custom_services == before.custom_services
    &&& after.settings == before.settings
}

fn wipe_entry(e: &mut Entry)
    ensures
        wiped_entry(old(e)@, final(e)@),
{
    let ghost old_title = old(e)@.title;
    match &mut e.title {
        Some(t) => wipe_string(t),
        None => {},
    }
    assert(e@.title == (match old_title {
        Some(_) => Some(Seq::<char>::empty()),
        None => None,
    }));
    let ghost before = fields_view(e.fields@);
    let ghost title_after = e@.title;
    let mut done: Vec<Field> = Vec::new();
    while e.fields.len() > 0
        invariant
            e@.id == old(e)@.id,
            e@.service_ref == old(e)@.service_ref,
            e@.created_at == old(e)@.created_at,
            e@.updated_at == old(e)@.updated_at,
            e@.title == title_after,
            done@.len() + e.fields@.len() == before.len(),
            forall|k: int| 0 <= k < e.fields@.len() ==> (#[trigger] e.fields@[k])@ == before[done@.len() + k],
            forall|k: int| 0 <= k < done@.len() ==> {
                &&& (#[trigger] done@[k]).label@ == Seq::<char>::empty()
                &&& done@[k].value@ == Seq::<char>::empty()
                &&& done@[k].id@ == before[k].id
                &&& done@[k].field_type == before[k].field_type
                &&& done@[k].secret == before[k].secret
            },
        decreases e.fields@.len(),
    {
        let ghost n = done@.len();
        let mut f = e.fields.remove(0);
        assert(f@ == before[n as int]);
        wipe_string(&mut f.label);
        wipe_string(&mut f.value);
        done.push(f);
    }
    e.fields = done;
    assert(e@.fields.len() == before.len());
    assert(e@.id == old(e)@.id);
    assert(e@.service_ref == old(e)@.service_ref);
    assert(e@.created_at == old(e)@.created_at);
    assert(e@.title == (match old(e)@.title {
        Some(_) => Some(Seq::<char>::empty()),
        None => None,
    }));
    assert(before == old(e)@.fields);
}

/// Wipe the texts of every entry (titles, field labels and values) in place.
pub fn zeroize_model(model: &mut VaultModel)
    ensures
        wiped_model(old(model)@, final(model)@),
{
    let ghost before = entries_view(model.entries@);
    let mut done: Vec<Entry> = Vec::new();
    while model.entries.len() > 0
        invariant
            done@.len() + model.entries@.len() == before.len(),
            forall|k: int| 0 <= k < model.entries@.len() ==> (#[trigger] model.entries@[k])@ == before[done@.len() + k],
            forall|k: int| 0 <= k < done@.len() ==> wiped_entry(before[k], (#[trigger] done@[k])@),
            model@.custom_services == old(model)@.custom_services,
            model@.settings == old(model)@.settings,
        decreases model.entries@.len(),
    {
        let mut e = model.entries.remove(0);
        wipe_entry(&mut e);
        done.push(e);
    }
    model.entries = done;
}

/// The abstract state of a session: the open vault, if unlocked, and the
/// auto-lock deadline.
pub struct SessionState {
    pub vault: Option<OpenVaultView>,
    pub auto_lock: AutoLockState,
}

/// Owns the unlocked vault and the auto-lock deadline.
pub struct SessionManager<C: Clock> {
    inner: Option<OpenVault>,
    auto_lock: AutoLock<C>,
}

impl<C: Clock> View for SessionManager<C> {
    type V = SessionState;

    closed spec fn view(&self) -> SessionState {
        SessionState {
            vault: match self.inner {
                Some(v) => Some(v@),
                None => None,
            },
            auto_lock: self.auto_lock@,
        }
    }
}

/// Wipe an open vault's model and key, then drop it.
fn zeroize_and_drop(vault: OpenVault) {
    let mut vault = vault;
    vault.wipe();
}

impl SessionManager<SystemClock> {
    /// A locked session on the system clock.
    pub fn new() -> (s: Self)
        ensures
            s@.vault is None,
            s@.auto_lock == (AutoLockState { timeout_secs: 0, at_millis: None }),
    {
        SessionManager::with_clock(SystemClock::new())
    }
}

impl<C: Clock> SessionManager<C> {
    /// A locked session whose auto-lock reads `clock`.
    pub fn with_clock(clock: C) -> (s: Self)
        ensures
            s@.vault is None,
            s@.auto_lock == (AutoLockState { timeout_secs: 0, at_millis: None }),
    {
        SessionManager { inner: None, auto_lock: AutoLock::new(clock) }
    }

    /// The auto-lock deadline.
    pub fn auto_lock(&self) -> (a: &AutoLock<C>)
        ensures
            a@ == self@.auto_lock,
    {
        &self.auto_lock
    }

    /// Whether a vault is open.
    pub fn is_unlocked(&self) -> (b: bool)
        ensures
            b == self@.vault is Some,
    {
        self.inner.is_some()
    }

    /// Enter the unlocked state with `vault` (a previously open vault is
    /// wiped first) and arm the auto-lock from the vault's settings, counting
    /// from the clock reading `now`.
    pub fn set_unlocked_at(&mut self, vault: OpenVault, now: u64)
        ensures
            final(self)@.vault == Some(vault@),
            final(self)@.auto_lock == armed(vault@.model.settings.auto_lock_seconds, now),
    {
        let timeout = vault.model().settings.auto_lock_seconds;
        let previous = self.inner.take();
        match previous {
            Some(p) => zeroize_and_drop(p),
            None => {},
        }
        self.inner = Some(vault);
        self.auto_lock.arm_at(timeout, now);
    }

    /// [`SessionManager::set_unlocked_at`] at the clock's now.
    pub fn set_unlocked(&mut self, vault: OpenVault)
        ensures
            final(self)@.vault == Some(vault@),
            exists|now: u64| final(self)@.auto_lock == #[trigger] armed(vault@.model.settings.auto_lock_seconds, now),
    {
        let now = self.auto_lock.now_millis();
        self.set_unlocked_at(vault, now);
    }

    /// Lock: wipe and drop the open vault (if any), cancel the deadline and
    /// notify, whether or not a vault was open. Returns whether one was.
    pub fn lock<N: LockNotifier>(&mut self, notifier: &N) -> (was_unlocked: bool)
        ensures
            was_unlocked == old(self)@.vault is Some,
            final(self)@.vault is None,
            final(self)@.auto_lock == (AutoLockState { timeout_secs: old(self)@.auto_lock.timeout_secs, at_millis: None }),
    {
        let was_unlocked = match self.inner.take() {
            Some(v) => {
                zeroize_and_drop(v);
                true
            },
            None => false,
        };
        self.auto_lock.disarm();
        notifier.notify_locked();
        was_unlocked
    }

    /// User activity at the clock reading `now`: restart the countdown, only
    /// while unlocked.
    pub fn report_activity_at(&mut self, now: u64)
        ensures
            final(self)@.vault == old(self)@.vault,
            final(self)@.auto_lock == (if old(self)@.vault is Some {
                after_activity(old(self)@.auto_lock, now)
            } else {
                old(self)@.auto_lock
            }),
    {
        if self.is_unlocked() {
            self.auto_lock.record_activity_at(now);
        }
    }

    /// [`SessionManager::report_activity_at`] at the clock's now.
    pub fn report_activity(&mut self)
        ensures
            final(self)@.vault == old(self)@.vault,
            old(self)@.vault is None ==> final(self)@.auto_lock == old(self)@.auto_lock,
            old(self)@.vault is Some ==> exists|now: u64| final(self)@.auto_lock == #[trigger] after_activity(old(self)@.auto_lock, now),
    {
        let now = self.auto_lock.now_millis();
        self.report_activity_at(now);
    }

    /// Lock if unlocked and the deadline has passed at the clock reading
    /// `now` (locking as [`SessionManager::lock`] does). Returns whether it
    /// locked.
    pub fn check_auto_lock_at<N: LockNotifier>(&mut self, now: u64, notifier: &N) -> (locked: bool)
        ensures
            locked == (old(self)@.vault is Some && expired_at(old(self)@.auto_lock, now)),
            locked ==> final(self)@.vault is None
                && final(self)@.auto_lock == (AutoLockState { timeout_secs: old(self)@.auto_lock.timeout_secs, at_millis: None }),
            !locked ==> final(self)@ == old(self)@,
    {
        if self.auto_lock.is_expired_at(now) && self.is_unlocked() {
            self.lock(notifier)
        } else {
            false
        }
    }

    /// [`SessionManager::check_auto_lock_at`] at the clock's now.
    pub fn check_auto_lock<N: LockNotifier>(&mut self, notifier: &N) -> (locked: bool)
        ensures
            exists|now: u64| locked == #[trigger] locks_at(old(self)@, now),
            locked ==> final(self)@.vault is None
                && final(self)@.auto_lock == (AutoLockState { timeout_secs: old(self)@.auto_lock.timeout_secs, at_millis: None }),
            !locked ==> final(self)@ == old(self)@,
            old(self)@.auto_lock.at_millis is None ==> !locked,
    {
        let now = self.auto_lock.now_millis();
        let ghost before = self@;
        let locked = self.check_auto_lock_at(now, notifier);
        assert(locked == (before.vault is Some && expired_at(before.auto_lock, now)));
        assert(locked == locks_at(before, now));
        locked
    }

    /// Apply the open vault's (possibly changed) auto-lock timeout at the
    /// clock reading `now`, restarting the countdown; nothing happens while
    /// locked.
    pub fn refresh_auto_lock_from_settings_at(&mut self, now: u64)
        ensures
            final(self)@.vault == old(self)@.vault,
            final(self)@.auto_lock == (match old(self)@.vault {
                Some(v) => armed(v.model.settings.auto_lock_seconds, now),
                None => old(self)@.auto_lock,
            }),
    {
        let timeout = match &self.inner {
            Some(v) => v.model().settings.auto_lock_seconds,
            None => {
                return;
            },
        };
        self.auto_lock.arm_at(timeout, now);
    }

    /// [`SessionManager::refresh_auto_lock_from_settings_at`] at the clock's
    /// now.
    pub fn refresh_auto_lock_from_settings(&mut self)
        ensures
            final(self)@.vault == old(self)@.vault,
            old(self)@.vault matches Some(v) ==> exists|now: u64| final(self)@.auto_lock
                == #[trigger] armed(v.model.settings.auto_lock_seconds, now),
            old(self)@.vault is None ==> final(self)@.auto_lock == old(self)@.auto_lock,
    {
        let now = self.auto_lock.now_millis();
        self.refresh_auto_lock_from_settings_at(now);
    }

    /// The window lost focus: lock when unlocked and lock-on-blur is set.
    /// Returns whether it locked.
    pub fn handle_window_blur<N: LockNotifier>(&mut self, notifier: &N) -> (locked: bool)
        ensures
            locked == (old(self)@.vault matches Some(v) && v.model.settings.lock_on_blur),
            locked ==> final(self)@.vault is None
                && final(self)@.auto_lock == (AutoLockState { timeout_secs: old(self)@.auto_lock.timeout_secs, at_millis: None }),
            !locked ==> final(self)@ == old(self)@,
    {
        let should_lock = match &self.inner {
            Some(v) => v.model().settings.lock_on_blur,
            None => false,
        };
        if should_lock {
            self.lock(notifier)
        } else {
            false
        }
    }

    /// The open vault, or [`KeyhavenError::Locked`].
    pub fn vault(&self) -> (r: Result<&OpenVault, KeyhavenError>)
        ensures
            match r {
                Ok(v) => self@.vault == Some(v@),
                Err(e) => self@.vault is None && e == KeyhavenError::Locked,
            },
    {
        match &self.inner {
            Some(v) => Ok(v),
            None => Err(KeyhavenError::Locked),
        }
    }

    /// The open vault for changes, or [`KeyhavenError::Locked`].
    pub fn vault_mut(&mut self) -> (r: Result<&mut OpenVault, KeyhavenError>)
        ensures
            match r {
                Ok(v) => old(self)@.vault == Some(v@) && final(self)@ == (SessionState {
                    vault: Some(final(v)@),
                    auto_lock: old(self)@.auto_lock,
                }),
                Err(e) => old(self)@.vault is None && e == KeyhavenError::Locked && final(self)@ == old(self)@,
            },
    {
        match &mut self.inner {
            Some(v) => Ok(v),
            None => Err(KeyhavenError::Locked),
        }
    }
}

} // verus!

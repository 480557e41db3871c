//! The single-slot, lazily initialized manager for the mail-store handle.
//!
//! The manager owns one optional handle. The first `get` after
//! construction or after `reset` opens the store; every later `get`
//! returns the cached handle unchanged — even when the caller asks for a
//! different access mode. That mode blindness is a documented limitation,
//! not an accident: a caller that was handed a read-only handle must gate
//! writes through [`Handle::check_write`], which reports
//! [`WrongModeError`] instead of letting the write go ahead.
//!
//! The check-then-open sequence takes `&mut self`, so two callers can
//! never race it; a process that shares the manager wraps it in a mutex
//! and thereby inherits the single-open guarantee proved here.

use vstd::prelude::*;

use crate::store::StoreStatus;

verus! {

/// Access mode requested when opening the mail store.
#[derive(Clone, Copy, PartialEq, Eq, Structural, Debug)]
pub enum Mode {
    ReadOnly,
    ReadWrite,
}

/// Why an attempt to open the mail store failed.
#[derive(Clone, Copy, PartialEq, Eq, Structural, Debug)]
pub enum OpenError {
    /// No store exists at the configured path.
    NotFound,
    /// Another writer holds the store's write lock; opening does not wait.
    Locked,
    /// The store's files cannot be read by this caller.
    PermissionDenied,
    /// The store's index is damaged.
    Corrupt,
}

/// A write was attempted through a handle that was opened read-only.
#[derive(Clone, Copy, PartialEq, Eq, Structural, Debug)]
pub struct WrongModeError;

/// A capability standing for one open connection to the mail store.
///
/// Handles are compared by `conn`, the serial number of the underlying
/// connection: two handles with the same `conn` refer to the same
/// connection. Callers receive handles from [`Manager::get`] and should
/// treat them as opaque.
#[derive(Clone, Copy, PartialEq, Eq, Structural, Debug)]
pub struct Handle {
    /// The mode the connection was opened with — the mode of the first
    /// opener, whatever later callers asked for.
    pub mode: Mode,
    /// Serial number of the underlying connection, counted from 1.
    pub conn: u64,
}

impl Handle {
    /// Gate for write operations: a read-only handle refuses them with
    /// `WrongModeError` instead of letting a write reach the store.
    pub fn check_write(&self) -> (r: Result<(), WrongModeError>)
        ensures
            r is Ok <==> self.mode is ReadWrite,
    {
        match self.mode {
            Mode::ReadWrite => Ok(()),
            Mode::ReadOnly => Err(WrongModeError),
        }
    }
}

/// Mathematical image of a `Manager`.
#[verifier::ext_equal]
pub struct ManagerModel {
    /// The configured store path.
    pub path: Seq<char>,
    /// The cached handle, if one is open.
    pub slot: Option<Handle>,
    /// How many underlying connections have ever been opened.
    pub opens: u64,
}

/// The manager's invariant: a cached handle refers to a connection that
/// was actually opened — its serial number lies between 1 and `opens`.
pub open spec fn manager_wf(m: ManagerModel) -> bool {
    m.slot matches Some(h) ==> 1 <= h.conn <= m.opens
}

/// What opening the store in `mode` yields under the conditions `st`.
/// Missing, unreadable and corrupt stores refuse every open; the write
/// lock refuses only read-write opens, and immediately — there is no
/// waiting on a locked store.
pub open spec fn open_outcome(st: StoreStatus, mode: Mode) -> Result<(), OpenError> {
    if !st.present {
        Err(OpenError::NotFound)
    } else if !st.accessible {
        Err(OpenError::PermissionDenied)
    } else if !st.intact {
        Err(OpenError::Corrupt)
    } else if st.write_locked && mode is ReadWrite {
        Err(OpenError::Locked)
    } else {
        Ok(())
    }
}

/// The transition `get` makes: a cached handle is returned as it is,
/// whatever mode was asked for; an empty slot opens one new connection on
/// success and is left untouched on failure.
pub open spec fn spec_get(m: ManagerModel, st: StoreStatus, mode: Mode) -> (ManagerModel, Result<
    Handle,
    OpenError,
>) {
    match m.slot {
        Some(h) => (m, Ok(h)),
        None => match open_outcome(st, mode) {
            Ok(_) => {
                let h = Handle { mode, conn: (m.opens + 1) as u64 };
                (ManagerModel { slot: Some(h), opens: (m.opens + 1) as u64, ..m }, Ok(h))
            },
            Err(e) => (m, Err(e)),
        },
    }
}

/// The transition `reset` makes: the slot is emptied; the count of
/// connections ever opened is history and stays.
pub open spec fn spec_reset(m: ManagerModel) -> ManagerModel {
    ManagerModel { slot: None, ..m }
}

/// The single point of truth for the mail-store connection: opened
/// lazily on the first `get`, reused by every later one, reopened only
/// after `reset`.
pub struct Manager {
    path: String,
    slot: Option<Handle>,
    opens: u64,
}

impl View for Manager {
    type V = ManagerModel;

    closed spec fn view(&self) -> ManagerModel {
        ManagerModel { path: self.path@, slot: self.slot, opens: self.opens }
    }
}

impl Manager {
    /// A fresh manager for the store at `path`: no handle open, no
    /// connection ever opened.
    pub fn new(path: String) -> (m: Manager)
        ensures
            m@ == (ManagerModel { path: path@, slot: None, opens: 0 }),
            manager_wf(m@),
    {
        Manager { path, slot: None, opens: 0 }
    }

    /// The configured store path.
    pub fn path(&self) -> (p: &String)
        ensures
            p@ == self@.path,
    {
        &self.path
    }

    /// How many underlying connections this manager has ever opened.
    pub fn open_count(&self) -> (n: u64)
        ensures
            n == self@.opens,
    {
        self.opens
    }

    /// Whether a handle is currently cached.
    pub fn has_handle(&self) -> (b: bool)
        ensures
            b == (self@.slot is Some),
    {
        self.slot.is_some()
    }

    /// Get a handle to the store, opening it if none is cached.
    ///
    /// `st` is the condition of the store at the configured path right
    /// now; the decision it feeds is [`open_outcome`]. A cached handle is
    /// returned regardless of the requested mode (see the module note); a
    /// failed open leaves the manager exactly as it was, so a later call
    /// may succeed once the outside condition clears.
    pub fn get(&mut self, st: &StoreStatus, mode: Mode) -> (r: Result<Handle, OpenError>)
        requires
            old(self)@.opens < u64::MAX,
        ensures
            final(self)@ == spec_get(old(self)@, *st, mode).0,
            r == spec_get(old(self)@, *st, mode).1,
            old(self)@.slot matches Some(h) ==> r == Ok::<Handle, OpenError>(h) && final(self)@
                == old(self)@,
            old(self)@.slot is None && open_outcome(*st, mode) is Ok ==> final(self)@.opens == old(
                self,
            )@.opens + 1,
            (old(self)@.slot is None && open_outcome(*st, mode) is Err) ==> (r == Err::<
                Handle,
                OpenError,
            >(open_outcome(*st, mode)->Err_0) && final(self)@ == old(self)@),
            manager_wf(old(self)@) ==> manager_wf(final(self)@),
    {
        match self.slot {
            Some(h) => Ok(h),
            None => {
                match open_store(st, mode) {
                    Ok(_) => {
                        let h = Handle { mode, conn: self.opens + 1 };
                        self.opens = self.opens + 1;
                        self.slot = Some(h);
                        Ok(h)
                    },
                    Err(e) => Err(e),
                }
            },
        }
    }

    /// Close the cached handle, if any, so the next `get` opens anew.
    /// Needed for mode changes: a read-only connection can never serve
    /// writes, so the slot must be emptied before a read-write `get`.
    /// Idempotent: resetting a manager with no handle changes nothing.
    pub fn reset(&mut self)
        ensures
            final(self)@ == spec_reset(old(self)@),
            manager_wf(old(self)@) ==> manager_wf(final(self)@),
    {
        self.slot = None;
    }
}

/// Folding a sequence of `get` calls over a manager, each seeing the
/// store condition and requested mode of its entry: the final manager
/// state, and every call's result in order. This is the serialized image
/// of concurrent callers — the mutual exclusion around the slot admits no
/// other interleaving.
pub open spec fn run_gets(m: ManagerModel, calls: Seq<(StoreStatus, Mode)>) -> (ManagerModel, Seq<
    Result<Handle, OpenError>,
>)
    decreases calls.len(),
{
    if calls.len() == 0 {
        (m, Seq::empty())
    } else {
        let first = spec_get(m, calls[0].0, calls[0].1);
        let rest = run_gets(first.0, calls.skip(1));
        (rest.0, seq![first.1] + rest.1)
    }
}

/// Once a handle is cached, any further sequence of `get` calls changes
/// nothing and hands every caller that same handle, whatever modes they
/// ask for.
pub proof fn lemma_cached_gets(m: ManagerModel, h: Handle, calls: Seq<(StoreStatus, Mode)>)
    requires
        m.slot == Some(h),
    ensures
        run_gets(m, calls).0 == m,
        run_gets(m, calls).1.len() == calls.len(),
        forall|i: int|
            0 <= i < calls.len() ==> run_gets(m, calls).1[i] == Ok::<Handle, OpenError>(h),
    decreases calls.len(),
{
    if calls.len() > 0 {
        lemma_cached_gets(m, h, calls.skip(1));
        assert forall|i: int| 0 <= i < calls.len() implies run_gets(m, calls).1[i] == Ok::<
            Handle,
            OpenError,
        >(h) by {
            if i > 0 {
                assert(run_gets(m, calls).1[i] == run_gets(m, calls.skip(1)).1[i - 1]);
            }
        }
    }
}

/// Law: on a fresh manager, any nonempty sequence of `get` calls whose
/// opens would all succeed performs exactly one underlying open, and
/// every caller receives the very same handle — one connection, shared
/// by all, in the mode the first caller asked for.
pub proof fn lemma_single_open(m: ManagerModel, calls: Seq<(StoreStatus, Mode)>)
    requires
        m.slot is None,
        m.opens < u64::MAX,
        calls.len() > 0,
        forall|i: int| 0 <= i < calls.len() ==> open_outcome(calls[i].0, calls[i].1) is Ok,
    ensures
        run_gets(m, calls).0.opens == m.opens + 1,
        run_gets(m, calls).0.slot == Some(
            Handle { mode: calls[0].1, conn: (m.opens + 1) as u64 },
        ),
        run_gets(m, calls).1.len() == calls.len(),
        forall|i: int|
            0 <= i < calls.len() ==> run_gets(m, calls).1[i] == Ok::<Handle, OpenError>(
                Handle { mode: calls[0].1, conn: (m.opens + 1) as u64 },
            ),
{
    let h = Handle { mode: calls[0].1, conn: (m.opens + 1) as u64 };
    let first = spec_get(m, calls[0].0, calls[0].1);
    assert(open_outcome(calls[0].0, calls[0].1) is Ok);
    assert(first.0.slot == Some(h));
    lemma_cached_gets(first.0, h, calls.skip(1));
    assert forall|i: int| 0 <= i < calls.len() implies run_gets(m, calls).1[i] == Ok::<
        Handle,
        OpenError,
    >(h) by {
        if i > 0 {
            assert(run_gets(m, calls).1[i] == run_gets(first.0, calls.skip(1)).1[i - 1]);
        }
    }
}

/// Law: `reset` followed by `get` opens exactly one new connection and
/// never hands back the handle that was cached before the reset.
pub proof fn lemma_reset_then_get_opens_fresh(m: ManagerModel, st: StoreStatus, mode: Mode)
    requires
        manager_wf(m),
        m.opens < u64::MAX,
        open_outcome(st, mode) is Ok,
    ensures
        spec_get(spec_reset(m), st, mode).0.opens == m.opens + 1,
        spec_get(spec_reset(m), st, mode).1 == Ok::<Handle, OpenError>(
            Handle { mode, conn: (m.opens + 1) as u64 },
        ),
        m.slot matches Some(h0) ==> spec_get(spec_reset(m), st, mode).1 != Ok::<
            Handle,
            OpenError,
        >(h0),
{
}

/// Law: `reset` is idempotent — resetting an already-closed manager is a
/// no-op.
pub proof fn lemma_reset_idempotent(m: ManagerModel)
    ensures
        spec_reset(spec_reset(m)) == spec_reset(m),
{
}

/// The open decision itself, on the sampled store condition. In the
/// running client this is where the outside store's own open call is
/// made; its observable outcome is exactly [`open_outcome`].
fn open_store(st: &StoreStatus, mode: Mode) -> (r: Result<(), OpenError>)
    ensures
        r == open_outcome(*st, mode),
{
    if !st.present {
        Err(OpenError::NotFound)
    } else if !st.accessible {
        Err(OpenError::PermissionDenied)
    } else if !st.intact {
        Err(OpenError::Corrupt)
    } else if st.write_locked && matches!(mode, Mode::ReadWrite) {
        Err(OpenError::Locked)
    } else {
        Ok(())
    }
}

} // verus!

//! An atomic owning cell whose replaced values are reclaimed through hazard pointers.
//!
//! An [`AtomBox`] holds one heap value that any thread may read, replace, or
//! compare-and-swap. Readers announce the value they are about to use in a hazard slot of
//! the cell's [`domain::Domain`]; replaced values are retired to that domain and released
//! only once no slot announces them.
use crate::domain::Domain;
use crate::domain::HazardPointer;
use crate::pointer::Pointer;
use vstd::prelude::*;
use vstd::rwlock::RwLock;
use vstd::rwlock::RwLockPredicate;

pub mod accounting;
pub mod domain;
pub mod hazard_ptr;
pub mod pointer;
pub mod protocol;

verus! {

/// How often `load` announces and re-reads before it holds the cell still to announce.
pub const LOAD_ATTEMPTS: usize = 16;

/// A cell may hold any pointer.
pub struct AnyPointer;

impl<T> RwLockPredicate<Pointer<T>> for AnyPointer {
    open spec fn inv(self, ptr: Pointer<T>) -> bool {
        true
    }
}

/// A cell that can be shared between threads and updated atomically.
///
/// A replaced value is released only after every load guard that refers to it has been
/// released. A cell ends with `retire_installed`, which hands the value it holds to the
/// domain; a cell that is let go without it keeps that value for good.
pub struct AtomBox<'domain, T: Send + Sync + 'static, const DOMAIN_ID: usize> {
    ptr: RwLock<Pointer<T>, AnyPointer>,
    domain: &'domain Domain<DOMAIN_ID>,
}

/// A value that was taken out of an `AtomBox`.
///
/// The guard owns the value: it can be put into a cell of the same domain with one of the
/// `_from_guard` functions, and is otherwise handed to the domain with `retire`.
pub struct StoreGuard<'domain, T: Send + Sync + 'static, const DOMAIN_ID: usize> {
    ptr: Pointer<T>,
    domain: &'domain Domain<DOMAIN_ID>,
}

/// A value that was read from an `AtomBox`.
///
/// Until the guard is given up with `release`, the value is not released. A guard that
/// came from `load` holds a hazard slot in which it has announced its value; `release`
/// gives the slot back.
pub struct LoadGuard<'domain, T, const DOMAIN_ID: usize> {
    ptr: Pointer<T>,
    domain: &'domain Domain<DOMAIN_ID>,
    haz_ptr: Option<HazardPointer<'domain, DOMAIN_ID>>,
}

impl<'domain, T: Send + Sync + 'static, const DOMAIN_ID: usize> AtomBox<'domain, T, DOMAIN_ID> {
    /// The domain the cell is bound to.
    pub closed spec fn spec_domain(&self) -> &Domain<DOMAIN_ID> {
        self.domain
    }

    /// The domain the cell is bound to.
    #[verifier::when_used_as_spec(spec_domain)]
    pub fn domain(&self) -> (domain: &'domain Domain<DOMAIN_ID>)
        ensures
            domain == self.domain(),
    {
        self.domain
    }

    /// A cell holding `value`, bound to `domain`.
    pub fn new_with_domain(value: T, domain: &'domain Domain<DOMAIN_ID>) -> (atom_box: Self)
        ensures
            atom_box.domain() == domain,
    {
        let ptr = RwLock::new(Pointer::new(value), Ghost(AnyPointer));
        AtomBox { ptr, domain }
    }

    /// A duplicate of the pointer installed at the moment of the call.
    fn current(&self) -> (ptr: Pointer<T>) {
        let handle = self.ptr.acquire_read();
        let ptr = handle.borrow().duplicate();
        handle.release_read();
        ptr
    }

    /// Reads the value in the cell.
    ///
    /// A hazard slot is acquired and the address installed is read. Then the address is
    /// announced in the slot and the cell is read again: if the same address is still
    /// installed, the announcement came in time and the value read is handed out. If not,
    /// the announcement is withdrawn and the round repeats with the address just read.
    /// After `LOAD_ATTEMPTS` rounds the cell is held still while its address is announced.
    pub fn load(&self) -> (guard: LoadGuard<'domain, T, DOMAIN_ID>)
        ensures
            guard.is_protected(),
            guard.announced() == Some(guard.address()),
            guard.domain() == self.domain(),
    {
        let mut haz_ptr = self.domain.acquire_haz_ptr();
        let mut seen_ptr: usize = self.current().address();
        let mut attempts: usize = LOAD_ATTEMPTS;
        while attempts > 0
            invariant
                haz_ptr.domain() == self.domain,
            decreases attempts,
        {
            haz_ptr.protect(seen_ptr);
            let current_ptr = self.current();
            if current_ptr.address() == seen_ptr {
                return LoadGuard { ptr: current_ptr, domain: self.domain, haz_ptr: Some(haz_ptr) };
            }
            haz_ptr.reset();
            seen_ptr = current_ptr.address();
            attempts = attempts - 1;
        }
        let handle = self.ptr.acquire_read();
        let current_ptr = handle.borrow().duplicate();
        haz_ptr.protect(current_ptr.address());
        handle.release_read();
        LoadGuard { ptr: current_ptr, domain: self.domain, haz_ptr: Some(haz_ptr) }
    }

    /// Puts `value` into the cell; the value it replaces is retired.
    pub fn store(&self, value: T) {
        self.swap(value).retire();
    }

    /// Puts the value of `value` into the cell; the value it replaces is retired.
    pub fn store_from_guard(&self, value: StoreGuard<'domain, T, DOMAIN_ID>)
        requires
            value.domain() == self.domain(),
    {
        self.swap_from_guard(value).retire();
    }

    /// Puts `new_value` into the cell and hands out the value it replaces.
    pub fn swap(&self, new_value: T) -> (guard: StoreGuard<'domain, T, DOMAIN_ID>)
        ensures
            guard.domain() == self.domain(),
    {
        let new_ptr = Pointer::new(new_value);
        let (mut installed, handle) = self.ptr.acquire_write();
        let old_ptr = installed.swap(new_ptr);
        handle.release_write(installed);
        StoreGuard { ptr: old_ptr, domain: self.domain }
    }

    /// Puts the value of `new_value` into the cell and hands out the value it replaces.
    /// The guard must come from a cell of the same domain.
    pub fn swap_from_guard(&self, new_value: StoreGuard<'domain, T, DOMAIN_ID>) -> (guard:
        StoreGuard<'domain, T, DOMAIN_ID>)
        requires
            new_value.domain() == self.domain(),
        ensures
            guard.domain() == self.domain(),
    {
        let new_ptr = new_value.take();
        let (mut installed, handle) = self.ptr.acquire_write();
        let old_ptr = installed.swap(new_ptr);
        handle.release_write(installed);
        StoreGuard { ptr: old_ptr, domain: self.domain }
    }

    /// Installs `new` if the pointer installed is known under `current`, in one step.
    fn exchange_if(&self, current: usize, new: Pointer<T>) -> (result: Result<
        Pointer<T>,
        (Pointer<T>, Pointer<T>),
    >)
        ensures
            match result {
                Ok(previous) => previous.address() == current,
                Err((observed, returned)) => observed.address() != current && returned == new,
            },
    {
        let (mut installed, handle) = self.ptr.acquire_write();
        let result = installed.compare_exchange(current, new);
        handle.release_write(installed);
        result
    }

    /// Puts `new_value` into the cell if the cell still holds the value that
    /// `current_value` refers to. The slot of `current_value` is given back either way.
    ///
    /// On success the replaced value is handed out; it is the one `current_value` refers
    /// to. On failure `new_value` is released on the spot and the guard that comes back
    /// refers to the value found in the cell; that guard holds no hazard slot.
    pub fn compare_exchange(
        &self,
        current_value: LoadGuard<'domain, T, DOMAIN_ID>,
        new_value: T,
    ) -> (result: Result<StoreGuard<'domain, T, DOMAIN_ID>, LoadGuard<'domain, T, DOMAIN_ID>>)
        ensures
            match result {
                Ok(guard) => {
                    &&& guard.address() == current_value.address()
                    &&& guard.domain() == self.domain()
                },
                Err(guard) => {
                    &&& guard.address() != current_value.address()
                    &&& guard.domain() == self.domain()
                    &&& !guard.is_protected()
                },
            },
    {
        let new_ptr = Pointer::new(new_value);
        let result = self.exchange_if(current_value.address(), new_ptr);
        current_value.release();
        match result {
            Ok(ptr) => Ok(StoreGuard { ptr, domain: self.domain }),
            Err((ptr, _unpublished)) => Err(LoadGuard { ptr, domain: self.domain, haz_ptr: None }),
        }
    }

    /// Puts the value of `new_value` into the cell if the cell still holds the value that
    /// `current_value` refers to. The guard must come from a cell of the same domain. The
    /// slot of `current_value` is given back either way.
    ///
    /// On success the replaced value is handed out; it is the one `current_value` refers
    /// to. On failure `new_value` comes back as it was, with a guard that refers to the
    /// value found in the cell; that guard holds no hazard slot.
    pub fn compare_exchange_from_guard(
        &self,
        current_value: LoadGuard<'domain, T, DOMAIN_ID>,
        new_value: StoreGuard<'domain, T, DOMAIN_ID>,
    ) -> (result: Result<
        StoreGuard<'domain, T, DOMAIN_ID>,
        (LoadGuard<'domain, T, DOMAIN_ID>, StoreGuard<'domain, T, DOMAIN_ID>),
    >)
        requires
            new_value.domain() == self.domain(),
        ensures
            match result {
                Ok(guard) => {
                    &&& guard.address() == current_value.address()
                    &&& guard.domain() == self.domain()
                },
                Err((guard, returned)) => {
                    &&& guard.address() != current_value.address()
                    &&& guard.domain() == self.domain()
                    &&& !guard.is_protected()
                    &&& returned == new_value
                },
            },
    {
        let StoreGuard { ptr: new_ptr, domain } = new_value;
        let result = self.exchange_if(current_value.address(), new_ptr);
        current_value.release();
        match result {
            Ok(ptr) => Ok(StoreGuard { ptr, domain: self.domain }),
            Err((ptr, returned)) => Err(
                (
                    LoadGuard { ptr, domain: self.domain, haz_ptr: None },
                    StoreGuard { ptr: returned, domain },
                ),
            ),
        }
    }

    /// Like `compare_exchange`, and allowed to fail although the cell holds the expected
    /// value. It never does so here.
    pub fn compare_exchange_weak(
        &self,
        current_value: LoadGuard<'domain, T, DOMAIN_ID>,
        new_value: T,
    ) -> (result: Result<StoreGuard<'domain, T, DOMAIN_ID>, LoadGuard<'domain, T, DOMAIN_ID>>)
        ensures
            match result {
                Ok(guard) => {
                    &&& guard.address() == current_value.address()
                    &&& guard.domain() == self.domain()
                },
                Err(guard) => {
                    &&& guard.address() != current_value.address()
                    &&& guard.domain() == self.domain()
                    &&& !guard.is_protected()
                },
            },
    {
        self.compare_exchange(current_value, new_value)
    }

    /// Like `compare_exchange_from_guard`, and allowed to fail although the cell holds the
    /// expected value. It never does so here.
    pub fn compare_exchange_weak_from_guard(
        &self,
        current_value: LoadGuard<'domain, T, DOMAIN_ID>,
        new_value: StoreGuard<'domain, T, DOMAIN_ID>,
    ) -> (result: Result<
        StoreGuard<'domain, T, DOMAIN_ID>,
        (LoadGuard<'domain, T, DOMAIN_ID>, StoreGuard<'domain, T, DOMAIN_ID>),
    >)
        requires
            new_value.domain() == self.domain(),
        ensures
            match result {
                Ok(guard) => {
                    &&& guard.address() == current_value.address()
                    &&& guard.domain() == self.domain()
                },
                Err((guard, returned)) => {
                    &&& guard.address() != current_value.address()
                    &&& guard.domain() == self.domain()
                    &&& !guard.is_protected()
                    &&& returned == new_value
                },
            },
    {
        self.compare_exchange_from_guard(current_value, new_value)
    }

    /// Ends the cell: the value installed is taken out and retired to the domain.
    pub fn retire_installed(self) {
        let AtomBox { ptr, domain } = self;
        let installed = ptr.into_inner();
        let (address, value) = installed.into_parts();
        domain.retire(address, value);
    }
}

impl<'domain, T: Send + Sync + 'static, const DOMAIN_ID: usize> StoreGuard<'domain, T, DOMAIN_ID> {
    /// The domain of the cell the value was taken out of.
    pub closed spec fn spec_domain(&self) -> &Domain<DOMAIN_ID> {
        self.domain
    }

    /// The domain of the cell the value was taken out of.
    #[verifier::when_used_as_spec(spec_domain)]
    pub fn domain(&self) -> (domain: &'domain Domain<DOMAIN_ID>)
        ensures
            domain == self.domain(),
    {
        self.domain
    }

    /// The address the value is known under.
    pub closed spec fn spec_address(&self) -> usize {
        self.ptr.address()
    }

    /// The value.
    pub closed spec fn value(&self) -> T {
        self.ptr.value()
    }

    /// The address the value is known under.
    #[verifier::when_used_as_spec(spec_address)]
    pub fn address(&self) -> (address: usize)
        ensures
            address == self.address(),
    {
        self.ptr.address()
    }

    /// Gives up the guard for the pointer to its value.
    fn take(self) -> (ptr: Pointer<T>)
        ensures
            ptr.address() == self.address(),
            ptr.value() == self.value(),
    {
        let StoreGuard { ptr, domain: _ } = self;
        ptr
    }

    /// Hands the value to the domain, which releases it once no slot announces it.
    pub fn retire(self) {
        let StoreGuard { ptr, domain } = self;
        let (address, value) = ptr.into_parts();
        domain.retire(address, value);
    }
}

impl<'domain, T, const DOMAIN_ID: usize> LoadGuard<'domain, T, DOMAIN_ID> {
    /// The domain of the cell the value was read from.
    pub closed spec fn spec_domain(&self) -> &Domain<DOMAIN_ID> {
        self.domain
    }

    /// The domain of the cell the value was read from.
    #[verifier::when_used_as_spec(spec_domain)]
    pub fn domain(&self) -> (domain: &'domain Domain<DOMAIN_ID>)
        ensures
            domain == self.domain(),
    {
        self.domain
    }

    /// The address the value is known under.
    pub closed spec fn spec_address(&self) -> usize {
        self.ptr.address()
    }

    /// The value.
    pub closed spec fn value(&self) -> T {
        self.ptr.value()
    }

    /// Whether the guard holds a hazard slot.
    pub closed spec fn is_protected(&self) -> bool {
        self.haz_ptr is Some
    }

    /// The address that the guard has announced in its hazard slot and not withdrawn;
    /// `None` for a guard without a slot.
    pub closed spec fn announced(&self) -> Option<usize> {
        match self.haz_ptr {
            Some(haz_ptr) => haz_ptr.announced(),
            None => None,
        }
    }

    /// The address the value is known under.
    #[verifier::when_used_as_spec(spec_address)]
    pub fn address(&self) -> (address: usize)
        ensures
            address == self.address(),
    {
        self.ptr.address()
    }

    /// The address announced in the hazard slot of the guard at the moment of the call;
    /// `None` when the guard holds no slot or the slot announces nothing.
    pub fn protected_address(&self) -> (address: Option<usize>)
        ensures
            !self.is_protected() ==> address is None,
    {
        match &self.haz_ptr {
            Some(haz_ptr) => haz_ptr.load(),
            None => None,
        }
    }

    /// Gives up the guard: its hazard slot, if it holds one, goes back to the domain with
    /// the announcement withdrawn.
    pub fn release(self) {
        let LoadGuard { ptr: _, domain, haz_ptr } = self;
        match haz_ptr {
            Some(haz_ptr) => {
                domain.release_hazard_ptr(haz_ptr);
            },
            None => {},
        }
    }
}

impl<'domain, T: Send + Sync + 'static, const DOMAIN_ID: usize> std::ops::Deref for StoreGuard<
    'domain,
    T,
    DOMAIN_ID,
> {
    type Target = T;

    fn deref(&self) -> (value: &T)
        ensures
            *value == self.value(),
    {
        self.ptr.get()
    }
}

impl<'domain, T, const DOMAIN_ID: usize> std::ops::Deref for LoadGuard<'domain, T, DOMAIN_ID> {
    type Target = T;

    fn deref(&self) -> (value: &T)
        ensures
            *value == self.value(),
    {
        self.ptr.get()
    }
}

} // verus!

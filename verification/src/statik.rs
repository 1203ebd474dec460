use vstd::prelude::*;

use crate::emu::{lemma_run_outside_image, run, spec_run};
use crate::error::Error;
use crate::handle::{new_detour, spec_new_detour_err, DetourHandle};
use crate::mem::CodeMemory;
use crate::tramp::spec_trampoline_code;

verus! {

/// A type-safe static detour slot.
///
/// The slot is generic over `C`, the value standing for the replacement
/// callable that a declared hook dispatches to. It owns at most one
/// detour handle — the handle slot moves from absent to present exactly
/// once — and one active callable, which may be swapped at any time,
/// in any lifecycle state. In the running system both slots are read and
/// written with sequentially consistent atomics; the model captures the
/// per-operation transitions those atomics make indivisible.
pub struct StaticDetour<C> {
    /// The active replacement callable, absent until first installed.
    pub closure: Option<C>,
    /// The underlying detour handle, absent until `initialize`.
    pub detour: Option<DetourHandle>,
    /// Absolute address of the generated dispatch routine that the hook
    /// installs at the target as its replacement.
    pub ffi: u64,
}

impl<C> StaticDetour<C> {
    /// Whether `initialize` has succeeded on this slot.
    pub open spec fn initialized(self) -> bool {
        self.detour is Some
    }

    /// Creates an empty static slot around the dispatch routine at `ffi`.
    pub fn __new(ffi: u64) -> (r: Self)
        ensures
            r.closure is None,
            r.detour is None,
            r.ffi == ffi,
    {
        StaticDetour { closure: None, detour: None, ffi }
    }

    /// Creates the slot's hook of `target` and installs `closure` as the
    /// active callable.
    ///
    /// Succeeds at most once per slot: any later call fails with
    /// [`Error::AlreadyInitialized`] and leaves the existing handle, the
    /// active callable and the image untouched. Construction never writes
    /// to the target; the new handle starts disabled.
    pub fn initialize(&mut self, mem: &mut CodeMemory, target: usize, closure: C) -> (r: Result<
        (),
        Error,
    >)
        requires
            old(mem).wf(),
            target <= old(mem).bytes@.len(),
            old(mem).base + old(mem).bytes@.len() + 32 <= u64::MAX,
        ensures
            old(self).initialized() ==> {
                &&& r == Err::<(), Error>(Error::AlreadyInitialized)
                &&& *final(self) == *old(self)
                &&& *final(mem) == *old(mem)
            },
            !old(self).initialized() ==> match r {
                Ok(()) => {
                    &&& final(self).closure == Some(closure)
                    &&& final(self).ffi == old(self).ffi
                    &&& final(self).detour matches Some(h) && {
                        &&& h.enabled == false
                        &&& h.replacement == old(self).ffi
                        &&& h.region.target == target
                        &&& h.region.planned(old(mem).bytes@, old(mem).base, old(self).ffi)
                        &&& h.tramp.entry == old(mem).base + old(mem).bytes@.len()
                        &&& Ok::<Seq<u8>, Error>(h.tramp.code@) == spec_trampoline_code(
                            old(mem).bytes@,
                            old(mem).base,
                            target as int,
                            h.w(),
                            h.tramp.entry as int,
                        )
                        &&& h.consistent(*final(mem))
                        &&& final(mem).base == old(mem).base
                        &&& final(mem).bytes@ == old(mem).bytes@ + h.tramp.code@
                        &&& final(mem).wf()
                    }
                },
                Err(e) => {
                    &&& *final(self) == *old(self)
                    &&& *final(mem) == *old(mem)
                    &&& Some(e) == spec_new_detour_err(
                        old(mem).bytes@,
                        old(mem).base,
                        target as int,
                        old(self).ffi,
                        old(mem).base + old(mem).bytes@.len(),
                    )
                },
            },
    {
        if self.detour.is_some() {
            return Err(Error::AlreadyInitialized);
        }
        match new_detour(mem, target, self.ffi) {
            Ok(h) => {
                self.detour = Some(h);
                self.set_detour(closure);
                Ok(())
            },
            Err(e) => Err(e),
        }
    }

    /// Enables the detour, delegating to the underlying handle.
    ///
    /// Fails with [`Error::NotInitialized`] before `initialize`; once
    /// initialized it is a no-op success when already enabled.
    pub fn enable(&mut self, mem: &mut CodeMemory) -> (r: Result<(), Error>)
        requires
            old(self).detour matches Some(h) ==> h.consistent(*old(mem)),
        ensures
            !old(self).initialized() ==> {
                &&& r == Err::<(), Error>(Error::NotInitialized)
                &&& *final(self) == *old(self)
                &&& *final(mem) == *old(mem)
            },
            old(self).detour matches Some(h) ==> {
                &&& r == Ok::<(), Error>(())
                &&& final(self).detour == Some(h.after_enable())
                &&& final(self).closure == old(self).closure
                &&& final(self).ffi == old(self).ffi
                &&& final(mem).base == old(mem).base
                &&& final(mem).bytes@ == h.bytes_after_enable(old(mem).bytes@)
                &&& h.after_enable().consistent(*final(mem))
            },
    {
        match self.detour.take() {
            Some(mut h) => {
                let r = h.enable(mem);
                self.detour = Some(h);
                r
            },
            None => Err(Error::NotInitialized),
        }
    }

    /// Disables the detour, delegating to the underlying handle.
    ///
    /// Fails with [`Error::NotInitialized`] before `initialize`; once
    /// initialized it is a no-op success when already disabled.
    pub fn disable(&mut self, mem: &mut CodeMemory) -> (r: Result<(), Error>)
        requires
            old(self).detour matches Some(h) ==> h.consistent(*old(mem)),
        ensures
            !old(self).initialized() ==> {
                &&& r == Err::<(), Error>(Error::NotInitialized)
                &&& *final(self) == *old(self)
                &&& *final(mem) == *old(mem)
            },
            old(self).detour matches Some(h) ==> {
                &&& r == Ok::<(), Error>(())
                &&& final(self).detour == Some(h.after_disable())
                &&& final(self).closure == old(self).closure
                &&& final(self).ffi == old(self).ffi
                &&& final(mem).base == old(mem).base
                &&& final(mem).bytes@ == h.bytes_after_disable(old(mem).bytes@)
                &&& h.after_disable().consistent(*final(mem))
            },
    {
        match self.detour.take() {
            Some(mut h) => {
                let r = h.disable(mem);
                self.detour = Some(h);
                r
            },
            None => Err(Error::NotInitialized),
        }
    }

    /// Whether the detour is currently enabled; `false`, not an error, on
    /// an uninitialized slot.
    pub fn is_enabled(&self) -> (r: bool)
        ensures
            r == (self.detour matches Some(h) && h.enabled),
    {
        match &self.detour {
            Some(h) => h.is_enabled(),
            None => false,
        }
    }

    /// Installs a new active callable, regardless of the lifecycle state.
    ///
    /// The swap replaces the whole value at once; in the running system
    /// the previous callable is released only after the swap completes, so
    /// an invocation already holding the old value finishes safely.
    pub fn set_detour(&mut self, closure: C)
        ensures
            final(self).closure == Some(closure),
            final(self).detour == old(self).detour,
            final(self).ffi == old(self).ffi,
    {
        self.closure = Some(closure);
    }

    /// The absolute address of the generated trampoline, through which the
    /// original behavior stays reachable in every lifecycle state.
    pub fn trampoline(&self) -> (r: Result<u64, Error>)
        ensures
            match r {
                Ok(entry) => self.detour matches Some(h) && entry == h.tramp.entry,
                Err(e) => e == Error::NotInitialized && self.detour is None,
            },
    {
        match &self.detour {
            Some(h) => Ok(h.trampoline_entry()),
            None => Err(Error::NotInitialized),
        }
    }

    /// Invokes the original behavior: a run of the execution model from
    /// the trampoline entry, whatever the lifecycle state, since the
    /// trampoline never depends on the live patch.
    ///
    /// Fails with [`Error::NotInitialized`] before `initialize`; the run
    /// itself yields `None` where it leaves the image or the modeled
    /// subset.
    pub fn call(&self, mem: &CodeMemory, fuel: u64) -> (r: Result<Option<u32>, Error>)
        ensures
            match r {
                Ok(v) => self.detour matches Some(h) && v == spec_run(
                    mem.bytes@,
                    mem.base,
                    h.tramp.entry - mem.base,
                    0u32,
                    fuel as nat,
                ),
                Err(e) => e == Error::NotInitialized && self.detour is None,
            },
    {
        match &self.detour {
            Some(h) => {
                let entry = h.trampoline_entry();
                let blen = mem.bytes.len();
                if entry < mem.base || entry - mem.base >= blen as u64 {
                    proof {
                        lemma_run_outside_image(
                            mem.bytes@,
                            mem.base,
                            h.tramp.entry - mem.base,
                            0u32,
                            fuel as nat,
                        );
                    }
                    Ok(None)
                } else {
                    Ok(run(mem, (entry - mem.base) as usize, fuel))
                }
            },
            None => Err(Error::NotInitialized),
        }
    }

    /// A transient reference to the active callable, for the generated
    /// call site that fires when the hook is taken.
    ///
    /// Reading the slot and invoking what was read are two steps; a swap
    /// between them means the invocation runs the callable that the read
    /// saw, never a partial value. Calling this before a callable was
    /// installed is a usage bug, which the running system treats as fatal;
    /// the contract rules it out.
    pub fn __detour(&self) -> (r: &C)
        requires
            self.closure is Some,
        ensures
            *r == self.closure->Some_0,
    {
        match &self.closure {
            Some(c) => c,
            None => vstd::pervasive::unreached(),
        }
    }
}

} // verus!

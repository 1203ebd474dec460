use vstd::prelude::*;

use crate::error::Error;
use crate::mem::{splice, CodeMemory};
use crate::plan::{
    build_hot_pad_patch, build_target_patch, hot_pad_patch, plan, spec_region_width, spec_strategy,
    strategy_width, target_patch, PatchRegion, Strategy,
};
use crate::tramp::{build_trampoline, spec_trampoline_code, Trampoline};

verus! {

/// Writing `patch` at `off` leaves the length, the patched span and every
/// other byte exactly determined.
pub proof fn lemma_splice_facts(s: Seq<u8>, off: int, patch: Seq<u8>)
    requires
        0 <= off,
        off + patch.len() <= s.len(),
    ensures
        splice(s, off, patch).len() == s.len(),
        splice(s, off, patch).subrange(off, off + patch.len()) == patch,
        forall|j: int| 0 <= j < off ==> splice(s, off, patch)[j] == s[j],
        forall|j: int| off + patch.len() <= j < s.len() ==> splice(s, off, patch)[j] == s[j],
{
    assert(splice(s, off, patch).subrange(off, off + patch.len()) =~= patch);
}

/// A live detour: the patched target, the bytes to install and to roll
/// back, the generated trampoline, and the lifecycle flag.
///
/// The handle exclusively owns its trampoline and its byte snapshots; the
/// target's memory itself belongs to the process, and the handle only
/// ever touches the bytes it has planned to overwrite.
pub struct DetourHandle {
    /// Absolute address of the replacement function.
    pub replacement: u64,
    /// The planned patch region at the target, with the saved bytes.
    pub region: PatchRegion,
    /// The redirect bytes written over the region on enable.
    pub patch: Vec<u8>,
    /// Hot-patch only: the five-byte jump written into the padding ahead
    /// of the target on enable.
    pub pad_patch: Vec<u8>,
    /// Hot-patch only: the original padding bytes, for exact rollback.
    pub pad_saved: Vec<u8>,
    /// The generated trampoline preserving the original behavior.
    pub tramp: Trampoline,
    /// Whether the patch is currently written at the target.
    pub enabled: bool,
}

impl DetourHandle {
    /// Offset of the patched span inside the image.
    pub open spec fn t(self) -> int {
        self.region.target as int
    }

    /// Width of the patched span.
    pub open spec fn w(self) -> int {
        self.region.width as int
    }

    /// Whether the hot-patch strategy is in use, which patches the padding
    /// span `[t - 5, t)` as well.
    pub open spec fn is_hot(self) -> bool {
        self.region.strategy == Strategy::HotPatch
    }

    /// Structural well-formedness against an image of base `base` and
    /// length `mlen`: spans in bounds, snapshots of the right widths, and
    /// the stored patch bytes exactly the strategy's encoding.
    pub open spec fn wf_for(self, base: u64, mlen: int) -> bool {
        &&& self.w() >= strategy_width(self.region.strategy)
        &&& self.t() + self.w() <= mlen
        &&& self.patch@ == target_patch(
            self.region.strategy,
            base,
            self.t(),
            self.w(),
            self.replacement,
        )
        &&& self.patch@.len() == self.w()
        &&& self.region.saved@.len() == self.w()
        &&& self.is_hot() ==> {
            &&& self.t() >= 5
            &&& self.pad_patch@ == hot_pad_patch(base, self.t(), self.replacement)
            &&& self.pad_patch@.len() == 5
            &&& self.pad_saved@.len() == 5
        }
        &&& !self.is_hot() ==> self.pad_patch@.len() == 0 && self.pad_saved@.len() == 0
    }

    /// The handle's invariant against the live image: while enabled the
    /// patched spans hold exactly the redirect bytes, while disabled they
    /// hold exactly the saved original bytes.
    pub open spec fn consistent(self, m: CodeMemory) -> bool {
        &&& self.wf_for(m.base, m.bytes@.len() as int)
        &&& if self.enabled {
            &&& m.bytes@.subrange(self.t(), self.t() + self.w()) == self.patch@
            &&& self.is_hot() ==> m.bytes@.subrange(self.t() - 5, self.t()) == self.pad_patch@
        } else {
            &&& m.bytes@.subrange(self.t(), self.t() + self.w()) == self.region.saved@
            &&& self.is_hot() ==> m.bytes@.subrange(self.t() - 5, self.t()) == self.pad_saved@
        }
    }

    /// The image bytes once this handle is enabled.
    pub open spec fn bytes_after_enable(self, bytes: Seq<u8>) -> Seq<u8> {
        if self.enabled {
            bytes
        } else {
            let b1 = splice(bytes, self.t(), self.patch@);
            if self.is_hot() {
                splice(b1, self.t() - 5, self.pad_patch@)
            } else {
                b1
            }
        }
    }

    /// The image bytes once this handle is disabled.
    pub open spec fn bytes_after_disable(self, bytes: Seq<u8>) -> Seq<u8> {
        if !self.enabled {
            bytes
        } else {
            let b1 = splice(bytes, self.t(), self.region.saved@);
            if self.is_hot() {
                splice(b1, self.t() - 5, self.pad_saved@)
            } else {
                b1
            }
        }
    }

    /// The handle after a successful enable.
    pub open spec fn after_enable(self) -> Self {
        DetourHandle { enabled: true, ..self }
    }

    /// The handle after a successful disable.
    pub open spec fn after_disable(self) -> Self {
        DetourHandle { enabled: false, ..self }
    }

    /// Whether the patch is currently installed.
    pub fn is_enabled(&self) -> (r: bool)
        ensures
            r == self.enabled,
    {
        self.enabled
    }

    /// The absolute address callers invoke to reach the original behavior.
    ///
    /// Available in both lifecycle states: the trampoline's relocated copy
    /// never depends on the live patch.
    pub fn trampoline_entry(&self) -> (r: u64)
        ensures
            r == self.tramp.entry,
    {
        self.tramp.entry
    }

    /// Installs the redirect at the target.
    ///
    /// A no-op success when already enabled; otherwise writes the patch
    /// bytes (and, for a hot patch, the padding jump) and sets the flag.
    /// Within the model the write itself always succeeds.
    pub fn enable(&mut self, mem: &mut CodeMemory) -> (r: Result<(), Error>)
        requires
            old(self).consistent(*old(mem)),
        ensures
            r == Ok::<(), Error>(()),
            *final(self) == old(self).after_enable(),
            final(mem).base == old(mem).base,
            final(mem).bytes@ == old(self).bytes_after_enable(old(mem).bytes@),
            final(self).consistent(*final(mem)),
    {
        if self.enabled {
            proof {
                assert(*self == self.after_enable());
            }
            return Ok(());
        }
        let ghost b0 = mem.bytes@;
        mem.write_span(self.region.target, &self.patch);
        proof {
            lemma_splice_facts(b0, self.t(), self.patch@);
        }
        if matches!(self.region.strategy, Strategy::HotPatch) {
            let ghost b1 = mem.bytes@;
            mem.write_span(self.region.target - 5, &self.pad_patch);
            proof {
                lemma_splice_facts(b1, self.t() - 5, self.pad_patch@);
                assert(mem.bytes@.subrange(self.t(), self.t() + self.w()) =~= self.patch@);
                assert(mem.bytes@.subrange(self.t() - 5, self.t()) =~= self.pad_patch@);
            }
        }
        self.enabled = true;
        proof {
            if !self.is_hot() {
                assert(mem.bytes@.subrange(self.t(), self.t() + self.w()) =~= self.patch@);
            }
        }
        Ok(())
    }

    /// Removes the redirect, restoring the saved original bytes.
    ///
    /// A no-op success when already disabled; otherwise rewrites exactly
    /// the captured snapshots and clears the flag.
    pub fn disable(&mut self, mem: &mut CodeMemory) -> (r: Result<(), Error>)
        requires
            old(self).consistent(*old(mem)),
        ensures
            r == Ok::<(), Error>(()),
            *final(self) == old(self).after_disable(),
            final(mem).base == old(mem).base,
            final(mem).bytes@ == old(self).bytes_after_disable(old(mem).bytes@),
            final(self).consistent(*final(mem)),
    {
        if !self.enabled {
            proof {
                assert(*self == self.after_disable());
            }
            return Ok(());
        }
        let ghost b0 = mem.bytes@;
        mem.write_span(self.region.target, &self.region.saved);
        proof {
            lemma_splice_facts(b0, self.t(), self.region.saved@);
        }
        if matches!(self.region.strategy, Strategy::HotPatch) {
            let ghost b1 = mem.bytes@;
            mem.write_span(self.region.target - 5, &self.pad_saved);
            proof {
                lemma_splice_facts(b1, self.t() - 5, self.pad_saved@);
                assert(mem.bytes@.subrange(self.t(), self.t() + self.w()) =~= self.region.saved@);
                assert(mem.bytes@.subrange(self.t() - 5, self.t()) =~= self.pad_saved@);
            }
        }
        self.enabled = false;
        proof {
            if !self.is_hot() {
                assert(mem.bytes@.subrange(self.t(), self.t() + self.w()) =~= self.region.saved@);
            }
        }
        Ok(())
    }

    /// Tears the detour down, disabling it first when still enabled, and
    /// releases the trampoline and the byte snapshots with the handle.
    ///
    /// Skipping teardown on an enabled handle would leave the target
    /// permanently redirected; this consuming form cannot be skipped
    /// halfway.
    pub fn release(self, mem: &mut CodeMemory) -> (r: Result<(), Error>)
        requires
            self.consistent(*old(mem)),
        ensures
            r == Ok::<(), Error>(()),
            final(mem).base == old(mem).base,
            final(mem).bytes@ == self.bytes_after_disable(old(mem).bytes@),
    {
        let mut h = self;
        h.disable(mem)
    }
}

/// The error with which constructing a detour for `target` toward `repl`
/// fails, or `None` where construction succeeds. `entry` is where the
/// trampoline would be placed.
pub open spec fn spec_new_detour_err(code: Seq<u8>, base: u64, target: int, repl: u64, entry: int) -> Option<
    Error,
> {
    let strategy = spec_strategy(code, base, target, repl);
    match spec_region_width(code, target, strategy_width(strategy)) {
        None => Some(Error::UnsupportedInstruction),
        Some(w) => match spec_trampoline_code(code, base, target, w, entry) {
            Ok(_) => None,
            Err(e) => Some(e),
        },
    }
}

/// Creates a hook of `target` toward the absolute address `replacement`.
///
/// Plans the patch region, generates the trampoline and captures every
/// byte the patch will overwrite, but never writes to the target: the
/// returned handle starts disabled. The trampoline is placed in fresh
/// executable bytes appended at the end of the image (so that it lies
/// within branch range of code nearby); on failure the image is returned
/// untouched.
pub fn new_detour(mem: &mut CodeMemory, target: usize, replacement: u64) -> (r: Result<
    DetourHandle,
    Error,
>)
    requires
        old(mem).wf(),
        target <= old(mem).bytes@.len(),
        old(mem).base + old(mem).bytes@.len() + 32 <= u64::MAX,
    ensures
        match r {
            Ok(h) => {
                &&& h.enabled == false
                &&& h.replacement == replacement
                &&& h.region.target == target
                &&& h.region.planned(old(mem).bytes@, old(mem).base, replacement)
                &&& h.tramp.entry == old(mem).base + old(mem).bytes@.len()
                &&& Ok::<Seq<u8>, Error>(h.tramp.code@) == spec_trampoline_code(
                    old(mem).bytes@,
                    old(mem).base,
                    target as int,
                    h.w(),
                    h.tramp.entry as int,
                )
                &&& final(mem).base == old(mem).base
                &&& final(mem).bytes@ == old(mem).bytes@ + h.tramp.code@
                &&& final(mem).wf()
                &&& h.consistent(*final(mem))
                &&& spec_new_detour_err(
                    old(mem).bytes@,
                    old(mem).base,
                    target as int,
                    replacement,
                    old(mem).base + old(mem).bytes@.len(),
                ) is None
            },
            Err(e) => {
                &&& *final(mem) == *old(mem)
                &&& Some(e) == spec_new_detour_err(
                    old(mem).bytes@,
                    old(mem).base,
                    target as int,
                    replacement,
                    old(mem).base + old(mem).bytes@.len(),
                )
            },
        },
{
    let region = match plan(mem, target, replacement) {
        Ok(region) => region,
        Err(e) => {
            return Err(e);
        },
    };
    proof {
        crate::plan::lemma_region_width_props(
            mem.bytes@,
            target as int,
            strategy_width(region.strategy),
        );
    }
    let entry: u64 = mem.base + mem.bytes.len() as u64;
    let tramp_code = match build_trampoline(mem, target, region.width, entry) {
        Ok(c) => c,
        Err(e) => {
            return Err(e);
        },
    };
    let patch = build_target_patch(&region, mem.base, replacement);
    let (pad_patch, pad_saved) = if matches!(region.strategy, Strategy::HotPatch) {
        let pp = build_hot_pad_patch(&region, mem.base, replacement);
        let ps = mem.read_span(target - 5, 5);
        (pp, ps)
    } else {
        (Vec::new(), Vec::new())
    };
    let ghost b0 = mem.bytes@;
    let off = mem.append(&tramp_code);
    let h = DetourHandle {
        replacement,
        region,
        patch,
        pad_patch,
        pad_saved,
        tramp: Trampoline { entry, code: tramp_code },
        enabled: false,
    };
    proof {
        assert(final(mem).bytes@.subrange(h.t(), h.t() + h.w()) =~= b0.subrange(
            h.t(),
            h.t() + h.w(),
        ));
        if h.is_hot() {
            assert(final(mem).bytes@.subrange(h.t() - 5, h.t()) =~= b0.subrange(
                h.t() - 5,
                h.t(),
            ));
        }
    }
    Ok(h)
}

} // verus!

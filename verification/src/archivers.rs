//! Bookkeeping of the background archivers: how many may run at once, the
//! handles kept for a graceful shutdown, and what each archiving step does
//! with one file.

use vstd::prelude::*;

verus! {

/// Maximum number of archivers running at once; a rotation that finds this
/// many running skips its archiving pass (left for the next rotation).
pub const MAX_CONCURRENT_ARCHIVERS: usize = 2;

/// The running archivers and the handles of those started, `H` being the
/// handle type of the threads that run them.
pub struct ArchiverPool<H> {
    active: usize,
    handles: Vec<H>,
}

impl<H> ArchiverPool<H> {
    #[verifier::type_invariant]
    spec fn within_limit(self) -> bool {
        self.active <= MAX_CONCURRENT_ARCHIVERS
    }

    /// The number of archivers running.
    pub closed spec fn active(&self) -> nat {
        self.active as nat
    }

    /// The handles kept for shutdown, in the order they were registered.
    pub closed spec fn handles(&self) -> Seq<H> {
        self.handles@
    }

    /// An empty pool.
    pub fn new() -> (r: Self)
        ensures
            r.active() == 0,
            r.handles() == Seq::<H>::empty(),
    {
        ArchiverPool { active: 0, handles: Vec::new() }
    }

    /// The number of archivers running, never above the limit.
    pub fn active_count(&self) -> (r: usize)
        ensures
            r == self.active(),
            r <= MAX_CONCURRENT_ARCHIVERS,
    {
        proof {
            use_type_invariant(self);
        }
        self.active
    }

    /// Admits an archiver for a batch of `batch_len` files: refused for an
    /// empty batch or when the limit is reached; an admitted archiver counts
    /// as running until `finish`.
    pub fn try_start(&mut self, batch_len: usize) -> (started: bool)
        ensures
            started == (batch_len > 0 && old(self).active() < MAX_CONCURRENT_ARCHIVERS),
            final(self).active() == if started {
                old(self).active() + 1
            } else {
                old(self).active()
            },
            final(self).active() <= MAX_CONCURRENT_ARCHIVERS,
            final(self).handles() == old(self).handles(),
    {
        proof {
            use_type_invariant(&*self);
        }
        if batch_len == 0 || self.active >= MAX_CONCURRENT_ARCHIVERS {
            return false;
        }
        self.active = self.active + 1;
        true
    }

    /// Records that a running archiver has ended (normally or by a panic).
    pub fn finish(&mut self)
        requires
            old(self).active() > 0,
        ensures
            final(self).active() == old(self).active() - 1,
            final(self).handles() == old(self).handles(),
    {
        proof {
            use_type_invariant(&*self);
        }
        self.active = self.active - 1;
    }

    /// Keeps the handle of a started archiver for shutdown.
    pub fn register(&mut self, handle: H)
        ensures
            final(self).handles() == old(self).handles().push(handle),
            final(self).active() == old(self).active(),
    {
        proof {
            use_type_invariant(&*self);
        }
        let mut kept: Vec<H> = Vec::new();
        std::mem::swap(&mut kept, &mut self.handles);
        kept.push(handle);
        self.handles = kept;
    }
}

/// Takes every kept archiver handle out of the pool, in registration order,
/// so that the caller waits for each (graceful shutdown); the pool keeps
/// none afterwards.
pub fn shutdown_archivers<H>(pool: &mut ArchiverPool<H>) -> (handles: Vec<H>)
    ensures
        handles@ == old(pool).handles(),
        final(pool).handles() == Seq::<H>::empty(),
        final(pool).active() == old(pool).active(),
{
    proof {
        use_type_invariant(&*pool);
    }
    let mut taken: Vec<H> = Vec::new();
    std::mem::swap(&mut taken, &mut pool.handles);
    taken
}

/// What archiving does with one log file.
#[derive(Clone, Copy, Debug, PartialEq, Eq, Structural)]
pub enum ArchiveStep {
    /// The file is gone (another pass handled it): nothing to do.
    Skip,
    /// Its archive already exists: only remove the leftover source.
    RemoveSource,
    /// Compress it into its archive, then remove the source.
    Compress,
}

/// Decides the archiving step for a file from whether the file and its
/// archive exist; archiving is thereby idempotent.
pub fn archive_step(source_exists: bool, archive_exists: bool) -> (r: ArchiveStep)
    ensures
        r == if !source_exists {
            ArchiveStep::Skip
        } else if archive_exists {
            ArchiveStep::RemoveSource
        } else {
            ArchiveStep::Compress
        },
{
    if !source_exists {
        ArchiveStep::Skip
    } else if archive_exists {
        ArchiveStep::RemoveSource
    } else {
        ArchiveStep::Compress
    }
}

} // verus!

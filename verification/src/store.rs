use vstd::prelude::*;
use crate::clip::Clip;

verus! {

/// Single-slot "last known clip" cache. It mediates both directions: a
/// host-originated clip is sent to the server only if the store accepts it,
/// and a server-originated clip is surfaced to the host only if the store
/// accepts it. The same monotonic watermark applies to clips originating
/// anywhere.
pub struct Store {
    clip: Option<Clip>,
}

impl Store {
    /// The remembered clip, if any.
    pub closed spec fn last(self) -> Option<Clip> {
        self.clip
    }

    /// Whether a candidate would be accepted: the store is empty, or the
    /// candidate is newer (strictly greater timestamp, different text) than
    /// the remembered clip.
    pub open spec fn spec_accepts(self, clip: Clip) -> bool {
        match self.last() {
            None => true,
            Some(cur) => clip.spec_newer_than(cur),
        }
    }

    pub fn new() -> (r: Store)
        ensures
            r.last() is None,
    {
        Store { clip: None }
    }

    /// Accepts the candidate iff the store is empty or the candidate is newer
    /// than the remembered clip; on acceptance the candidate becomes the
    /// remembered clip, otherwise the store is unchanged.
    #[must_use]
    pub fn add(&mut self, clip: &Clip) -> (r: bool)
        ensures
            r == old(self).spec_accepts(*clip),
            r ==> final(self).last() == Some(*clip),
            !r ==> *final(self) == *old(self),
    {
        let do_update = match &self.clip {
            None => true,
            Some(current) => clip.newer_than(current),
        };

        if do_update {
            self.clip = Some(clip.clone());
        }

        do_update
    }
}

/// Adding the same clip twice: whatever the first call decided, the second
/// call is rejected, because a clip is never newer than itself and a
/// rejected clip leaves the store where it was.
pub proof fn lemma_add_twice_rejected(s0: Store, s1: Store, c: Clip)
    requires
        s1.last() == if s0.spec_accepts(c) {
            Some(c)
        } else {
            s0.last()
        },
    ensures
        !s1.spec_accepts(c),
{
}

/// Two consecutive `add` calls whose clips carry identical text and
/// non-decreasing timestamps: once the first is accepted, the second is
/// rejected, since the newer-than relation demands different text.
pub proof fn lemma_duplicate_text_rejected(s0: Store, s1: Store, c1: Clip, c2: Clip)
    requires
        s0.spec_accepts(c1),
        s1.last() == Some(c1),
        c2.text@ == c1.text@,
        c2.timestamp >= c1.timestamp,
    ensures
        !s1.spec_accepts(c2),
{
}

/// A clip whose timestamp equals the remembered one is rejected even when
/// its text differs: the newer-than relation is strict.
pub proof fn lemma_equal_timestamp_rejected(s: Store, cur: Clip, c: Clip)
    requires
        s.last() == Some(cur),
        c.timestamp == cur.timestamp,
    ensures
        !s.spec_accepts(c),
{
}

} // verus!

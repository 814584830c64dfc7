use vstd::prelude::*;

verus! {

/// A file's last-modification time: whole seconds since the Unix epoch, and the
/// nanoseconds within that second.
#[derive(Clone, Copy, Debug, PartialEq, Eq, Structural)]
pub struct FileTime {
    pub seconds: i64,
    pub nanos: u32,
}

impl FileTime {
    /// `self` lies strictly before `other`.
    pub open spec fn earlier(self, other: FileTime) -> bool {
        self.seconds < other.seconds || (self.seconds == other.seconds && self.nanos
            < other.nanos)
    }

    /// Whether `self` lies strictly before `other`.
    pub fn is_earlier_than(&self, other: &FileTime) -> (r: bool)
        ensures
            r == self.earlier(*other),
    {
        self.seconds < other.seconds || (self.seconds == other.seconds && self.nanos
            < other.nanos)
    }
}

/// A target must be regenerated when it does not exist (`None`), or when some source
/// was modified at or after the target's modification time.
pub open spec fn stale(sources: Seq<FileTime>, target: Option<FileTime>) -> bool {
    match target {
        None => true,
        Some(t) => exists|i: int| 0 <= i < sources.len() && !(#[trigger] sources[i]).earlier(t),
    }
}

/// Whether the target whose modification time is `target` (`None` when it does not
/// exist) must be rebuilt from sources modified at `sources`.
pub fn needs_rebuild(sources: &Vec<FileTime>, target: Option<FileTime>) -> (r: bool)
    ensures
        r == stale(sources@, target),
{
    match target {
        None => true,
        Some(t) => {
            assert(target == Some(t));
            let mut i: usize = 0;
            while i < sources.len()
                invariant
                    target == Some(t),
                    i <= sources@.len(),
                    forall|j: int| 0 <= j < i ==> (#[trigger] sources@[j]).earlier(t),
                decreases sources@.len() - i,
            {
                if !sources[i].is_earlier_than(&t) {
                    assert(!sources@[i as int].earlier(t));
                    return true;
                }
                i = i + 1;
            }
            false
        },
    }
}

/// With no sources, only the target's absence makes it stale.
pub proof fn lemma_no_sources(target: Option<FileTime>)
    ensures
        stale(Seq::<FileTime>::empty(), target) == (target is None),
{
}

/// An existing target is fresh exactly when it is strictly newer than every source; a
/// source with the very same modification time makes it stale.
pub proof fn lemma_fresh_iff_newer(sources: Seq<FileTime>, t: FileTime)
    ensures
        !stale(sources, Some(t)) <==> forall|i: int|
            0 <= i < sources.len() ==> (#[trigger] sources[i]).earlier(t),
        forall|i: int| 0 <= i < sources.len() && #[trigger] sources[i] == t ==> stale(sources, Some(t)),
{
}

} // verus!

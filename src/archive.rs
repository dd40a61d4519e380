use vstd::prelude::*;
use vstd::string::StringSliceAdditionalSpecFns;

verus! {

/// Names of material assets end with this.
pub const MATERIAL_SUFFIX: &'static str = ".material.bin";

/// Suffixes of archive containers.
pub const ZIP_SUFFIX: &'static str = ".zip";

pub const MCPACK_SUFFIX: &'static str = ".mcpack";

/// `s` ends with `suffix`.
pub open spec fn ends_with(s: Seq<u8>, suffix: Seq<u8>) -> bool {
    suffix.len() <= s.len() && s.subrange(s.len() - suffix.len(), s.len() as int) == suffix
}

/// Whether the bytes of `s` end with those of `suffix`.
pub fn bytes_end_with(s: &[u8], suffix: &[u8]) -> (r: bool)
    ensures
        r == ends_with(s@, suffix@),
{
    let n = s.len();
    let k = suffix.len();
    if k > n {
        return false;
    }
    let start = n - k;
    let mut i: usize = 0;
    while i < k
        invariant
            i <= k,
            k <= n,
            n == s@.len(),
            k == suffix@.len(),
            start == n - k,
            forall|j: int| 0 <= j < i ==> s@[start + j] == suffix@[j],
        decreases k - i,
    {
        if s[start + i] != suffix[i] {
            assert(s@.subrange(start as int, n as int)[i as int] != suffix@[i as int]);
            return false;
        }
        i = i + 1;
    }
    assert(s@.subrange(start as int, n as int) =~= suffix@);
    true
}

/// How an archive entry is handled.
#[derive(Clone, Copy, PartialEq, Eq, Debug, Structural)]
pub enum EntryKind {
    /// A material asset: decoded, updated and encoded again.
    Material,
    /// Anything else: copied to the output as it is stored.
    PassThrough,
}

/// Material assets are the entries whose name ends with the material suffix.
pub fn classify_entry(name: &str) -> (r: EntryKind)
    ensures
        r == EntryKind::Material <==> ends_with(name.spec_bytes(), MATERIAL_SUFFIX.spec_bytes()),
{
    if bytes_end_with(name.as_bytes(), MATERIAL_SUFFIX.as_bytes()) {
        EntryKind::Material
    } else {
        EntryKind::PassThrough
    }
}

/// What an input file is taken for.
#[derive(Clone, Copy, PartialEq, Eq, Debug, Structural)]
pub enum InputKind {
    /// A single material asset.
    Asset,
    /// An archive of entries.
    Archive,
}

/// A file named like a material asset is one; one named like a zip or a
/// pack is an archive; any other name is refused.
pub fn input_kind(file: &str) -> (r: Option<InputKind>)
    ensures
        r == (if ends_with(file.spec_bytes(), MATERIAL_SUFFIX.spec_bytes()) {
            Some(InputKind::Asset)
        } else if ends_with(file.spec_bytes(), ZIP_SUFFIX.spec_bytes()) || ends_with(
            file.spec_bytes(),
            MCPACK_SUFFIX.spec_bytes(),
        ) {
            Some(InputKind::Archive)
        } else {
            None
        }),
{
    let b = file.as_bytes();
    if bytes_end_with(b, MATERIAL_SUFFIX.as_bytes()) {
        Some(InputKind::Asset)
    } else if bytes_end_with(b, ZIP_SUFFIX.as_bytes()) || bytes_end_with(b, MCPACK_SUFFIX.as_bytes()) {
        Some(InputKind::Archive)
    } else {
        None
    }
}

/// How encoding one material entry ended.
#[derive(Clone, Copy, PartialEq, Eq, Debug, Structural)]
pub enum EncodeResult {
    /// The entry was written.
    Written,
    /// The target layout cannot hold some feature of the material.
    Incompatible,
    /// Any other failure.
    Failed,
}

/// What becomes of the entry just encoded.
#[derive(Clone, Copy, PartialEq, Eq, Debug, Structural)]
pub enum EntryVerdict {
    /// Keep it in the output.
    Keep,
    /// Drop the partly written entry and go on with the next one.
    Discard,
    /// Stop the whole archive.
    Abort,
}

pub open spec fn verdict_of(r: EncodeResult) -> EntryVerdict {
    match r {
        EncodeResult::Written => EntryVerdict::Keep,
        EncodeResult::Incompatible => EntryVerdict::Discard,
        EncodeResult::Failed => EntryVerdict::Abort,
    }
}

/// Counts of an archive run: materials transcoded, and compatibility
/// warnings.
#[derive(Clone, Copy, PartialEq, Eq, Debug, Structural)]
pub struct ArchiveTally {
    pub translated: u64,
    pub warnings: u64,
}

/// The counts after one more encode result.
pub open spec fn tally_step(t: (nat, nat), r: EncodeResult) -> (nat, nat) {
    match r {
        EncodeResult::Written => (t.0 + 1, t.1),
        EncodeResult::Incompatible => (t.0, t.1 + 1),
        EncodeResult::Failed => t,
    }
}

/// The counts after a run of encode results, starting from none.
pub open spec fn tally_of(s: Seq<EncodeResult>) -> (nat, nat)
    decreases s.len(),
{
    if s.len() == 0 {
        (0, 0)
    } else {
        tally_step(tally_of(s.drop_last()), s.last())
    }
}

/// How many results of `s` are compatibility failures.
pub open spec fn count_incompatible(s: Seq<EncodeResult>) -> nat
    decreases s.len(),
{
    if s.len() == 0 {
        0
    } else {
        count_incompatible(s.drop_last()) + if s.last() == EncodeResult::Incompatible {
            1nat
        } else {
            0nat
        }
    }
}

impl ArchiveTally {
    pub open spec fn counts(self) -> (nat, nat) {
        (self.translated as nat, self.warnings as nat)
    }

    pub fn new() -> (r: ArchiveTally)
        ensures
            r.counts() == tally_of(Seq::empty()),
    {
        ArchiveTally { translated: 0, warnings: 0 }
    }

    /// Records how encoding an entry ended, and says what becomes of it: a
    /// written entry counts as transcoded, a compatibility failure as a
    /// warning and is dropped, any other failure stops the archive.
    pub fn record(&mut self, result: EncodeResult) -> (v: EntryVerdict)
        requires
            old(self).translated + old(self).warnings < u64::MAX,
        ensures
            v == verdict_of(result),
            final(self).counts() == tally_step(old(self).counts(), result),
    {
        match result {
            EncodeResult::Written => {
                self.translated = self.translated + 1;
                EntryVerdict::Keep
            },
            EncodeResult::Incompatible => {
                self.warnings = self.warnings + 1;
                EntryVerdict::Discard
            },
            EncodeResult::Failed => EntryVerdict::Abort,
        }
    }

    /// Whether another result can be recorded.
    pub fn has_room(&self) -> (r: bool)
        ensures
            r == (self.translated + self.warnings < u64::MAX),
    {
        self.translated < u64::MAX - self.warnings
    }
}

/// Over an archive of material entries of which none fails for a reason
/// other than compatibility, the transcoded count is the number of entries
/// less the compatibility failures, and the warning count is the number of
/// those failures.
pub proof fn lemma_compat_accounting(s: Seq<EncodeResult>)
    requires
        forall|i: int| 0 <= i < s.len() ==> s[i] != EncodeResult::Failed,
    ensures
        tally_of(s).0 == s.len() - count_incompatible(s),
        tally_of(s).1 == count_incompatible(s),
        count_incompatible(s) <= s.len(),
        forall|i: int|
            0 <= i < s.len() ==> (verdict_of(#[trigger] s[i]) == EntryVerdict::Keep <==> s[i]
                == EncodeResult::Written),
    decreases s.len(),
{
    if s.len() > 0 {
        let p = s.drop_last();
        assert forall|i: int| 0 <= i < p.len() implies p[i] != EncodeResult::Failed by {
            assert(p[i] == s[i]);
        }
        lemma_compat_accounting(p);
    }
}

} // verus!

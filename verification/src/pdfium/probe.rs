//! The capability probe's record of whether PDFium can hide and restore
//! native text objects, and the checksum it compares rendered bitmaps with.

use vstd::prelude::*;

verus! {

/// The 64-bit FNV-1a offset basis.
pub const FNV_OFFSET_BASIS: u64 = 0xcbf2_9ce4_8422_2325;

/// The 64-bit FNV-1a prime.
pub const FNV_PRIME: u64 = 0x100_0000_01b3;

/// One FNV-1a step: fold `byte` into `hash`, multiplying modulo 2^64.
pub open spec fn fnv1a_step(hash: u64, byte: u8) -> u64 {
    (((hash ^ (byte as u64)) as nat * FNV_PRIME as nat) % 0x1_0000_0000_0000_0000) as u64
}

/// The 64-bit FNV-1a hash of `bytes`.
pub open spec fn spec_fnv1a(bytes: Seq<u8>) -> u64
    decreases bytes.len(),
{
    if bytes.len() == 0 {
        FNV_OFFSET_BASIS
    } else {
        fnv1a_step(spec_fnv1a(bytes.drop_last()), bytes.last())
    }
}

/// The 64-bit FNV-1a hash of the raw bytes of a rendered bitmap.
pub fn bitmap_checksum(bytes: &[u8]) -> (hash: u64)
    ensures
        hash == spec_fnv1a(bytes@),
{
    let mut hash: u64 = FNV_OFFSET_BASIS;
    let mut index: usize = 0;
    while index < bytes.len()
        invariant
            index <= bytes@.len(),
            hash == spec_fnv1a(bytes@.take(index as int)),
        decreases bytes@.len() - index,
    {
        proof {
            assert(bytes@.take(index + 1).drop_last() =~= bytes@.take(index as int));
        }
        hash = (hash ^ bytes[index] as u64).wrapping_mul(FNV_PRIME);
        index = index + 1;
    }
    assert(bytes@.take(bytes@.len() as int) =~= bytes@);
    hash
}

/// What the probe found when it hid a page's text objects and showed them
/// again: the checksums of the three renders, whether hiding changed the
/// bitmap and showing restored it, and the errors met on the way.
#[derive(Debug, Clone, PartialEq, Eq)]
pub struct TextObjectRenderingCapability {
    pub text_object_count: usize,
    pub baseline_checksum: Option<u64>,
    pub suppressed_checksum: Option<u64>,
    pub restored_checksum: Option<u64>,
    pub suppression_changed_bitmap: Option<bool>,
    pub restoration_matches_baseline: Option<bool>,
    pub deactivation_error: Option<String>,
    pub reactivation_error: Option<String>,
    pub render_error: Option<String>,
}

/// `prefix` followed by an error message.
pub open spec fn error_text(prefix: Seq<char>, error: Seq<char>) -> Seq<char> {
    prefix + error
}

fn prefixed(prefix: &str, error: &str) -> (text: String)
    ensures
        text@ == error_text(prefix@, error@),
{
    let mut text = String::new();
    text.append(prefix);
    text.append(error);
    assert(text@ =~= prefix@ + error@);
    text
}

impl TextObjectRenderingCapability {
    /// Nothing found yet.
    pub fn empty() -> (capability: Self)
        ensures
            capability.text_object_count == 0,
            capability.baseline_checksum is None,
            capability.suppressed_checksum is None,
            capability.restored_checksum is None,
            capability.suppression_changed_bitmap is None,
            capability.restoration_matches_baseline is None,
            capability.deactivation_error is None,
            capability.reactivation_error is None,
            capability.render_error is None,
    {
        TextObjectRenderingCapability {
            text_object_count: 0,
            baseline_checksum: None,
            suppressed_checksum: None,
            restored_checksum: None,
            suppression_changed_bitmap: None,
            restoration_matches_baseline: None,
            deactivation_error: None,
            reactivation_error: None,
            render_error: None,
        }
    }

    /// Records the checksum of the page as first rendered, or why it could
    /// not be rendered. The probe goes on only after a render.
    pub fn record_baseline(&mut self, render: Result<u64, String>) -> (proceed: bool)
        ensures
            match render {
                Ok(checksum) => proceed && *final(self) == (Self {
                    baseline_checksum: Some(checksum),
                    ..*old(self)
                }),
                Err(error) => {
                    &&& !proceed
                    &&& final(self).render_error matches Some(text) && text@ == error_text(
                        "baseline render: "@,
                        error@,
                    )
                    &&& *final(self) == (Self { render_error: final(self).render_error, ..*old(self) })
                },
            },
    {
        match render {
            Ok(checksum) => {
                self.baseline_checksum = Some(checksum);
                true
            },
            Err(error) => {
                self.render_error = Some(prefixed("baseline render: ", error.as_str()));
                false
            },
        }
    }

    /// Records whether a text object was active before the probe hid it,
    /// and returns whether to hide it: only objects known to be active are
    /// hidden; an object whose state is unknown counts as inactive and its
    /// error is kept.
    pub fn record_activity(&mut self, active: Result<bool, String>) -> (hide: bool)
        ensures
            match active {
                Ok(a) => (hide == a) && (*final(self) == *old(self)),
                Err(error) => {
                    &&& !hide
                    &&& final(self).deactivation_error matches Some(text) && text@ == error@
                    &&& *final(self) == (Self {
                        deactivation_error: final(self).deactivation_error,
                        ..*old(self)
                    })
                },
            },
    {
        match active {
            Ok(a) => a,
            Err(error) => {
                self.deactivation_error = Some(error);
                false
            },
        }
    }

    /// Records the render with the text objects hidden, compared with the
    /// first render.
    pub fn record_suppressed(&mut self, render: Result<u64, String>)
        requires
            old(self).baseline_checksum is Some,
        ensures
            match render {
                Ok(checksum) => *final(self) == (Self {
                    suppressed_checksum: Some(checksum),
                    suppression_changed_bitmap: Some(checksum != old(self).baseline_checksum.unwrap()),
                    ..*old(self)
                }),
                Err(error) => final(self).render_error matches Some(text) && text@ == error_text(
                    "suppressed render: "@,
                    error@,
                ) && *final(self) == (Self { render_error: final(self).render_error, ..*old(self) }),
            },
    {
        match render {
            Ok(checksum) => {
                let baseline = self.baseline_checksum.unwrap();
                self.suppressed_checksum = Some(checksum);
                self.suppression_changed_bitmap = Some(checksum != baseline);
            },
            Err(error) => {
                self.render_error = Some(prefixed("suppressed render: ", error.as_str()));
            },
        }
    }

    /// Records the render with the text objects shown again, compared with
    /// the first render.
    pub fn record_restored(&mut self, render: Result<u64, String>)
        requires
            old(self).baseline_checksum is Some,
        ensures
            match render {
                Ok(checksum) => *final(self) == (Self {
                    restored_checksum: Some(checksum),
                    restoration_matches_baseline: Some(checksum == old(self).baseline_checksum.unwrap()),
                    ..*old(self)
                }),
                Err(error) => final(self).render_error matches Some(text) && text@ == error_text(
                    "restored render: "@,
                    error@,
                ) && *final(self) == (Self { render_error: final(self).render_error, ..*old(self) }),
            },
    {
        match render {
            Ok(checksum) => {
                let baseline = self.baseline_checksum.unwrap();
                self.restored_checksum = Some(checksum);
                self.restoration_matches_baseline = Some(checksum == baseline);
            },
            Err(error) => {
                self.render_error = Some(prefixed("restored render: ", error.as_str()));
            },
        }
    }
}

} // verus!

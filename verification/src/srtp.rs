use vstd::prelude::*;

verus! {

/// A negotiated SRTP protection profile.
///
/// `Unsupported` stands both for "nothing negotiated yet" and for any profile
/// id this build does not know.
#[derive(Clone, Copy, Debug, PartialEq, Eq, Structural)]
pub enum SrtpProtectionProfile {
    Unsupported,
    Aes128CmHmacSha1_80,
    Aes128CmHmacSha1_32,
    AeadAes128Gcm,
    AeadAes256Gcm,
}

impl SrtpProtectionProfile {
    /// The stable numeric identifier of this profile on the wire.
    pub open spec fn spec_id(self) -> u16 {
        match self {
            SrtpProtectionProfile::Unsupported => 0,
            SrtpProtectionProfile::Aes128CmHmacSha1_80 => 1,
            SrtpProtectionProfile::Aes128CmHmacSha1_32 => 2,
            SrtpProtectionProfile::AeadAes128Gcm => 7,
            SrtpProtectionProfile::AeadAes256Gcm => 8,
        }
    }

    /// Returns the stable numeric identifier of this profile.
    pub fn id(&self) -> (r: u16)
        ensures
            r == self.spec_id(),
    {
        match self {
            SrtpProtectionProfile::Unsupported => 0,
            SrtpProtectionProfile::Aes128CmHmacSha1_80 => 1,
            SrtpProtectionProfile::Aes128CmHmacSha1_32 => 2,
            SrtpProtectionProfile::AeadAes128Gcm => 7,
            SrtpProtectionProfile::AeadAes256Gcm => 8,
        }
    }

    /// The profile a numeric identifier names; unknown ids map to `Unsupported`.
    pub open spec fn spec_from_id(id: u16) -> SrtpProtectionProfile {
        if id == 1 {
            SrtpProtectionProfile::Aes128CmHmacSha1_80
        } else if id == 2 {
            SrtpProtectionProfile::Aes128CmHmacSha1_32
        } else if id == 7 {
            SrtpProtectionProfile::AeadAes128Gcm
        } else if id == 8 {
            SrtpProtectionProfile::AeadAes256Gcm
        } else {
            SrtpProtectionProfile::Unsupported
        }
    }

    /// Returns the profile a numeric identifier names.
    pub fn from_id(id: u16) -> (r: SrtpProtectionProfile)
        ensures
            r == SrtpProtectionProfile::spec_from_id(id),
    {
        if id == 1 {
            SrtpProtectionProfile::Aes128CmHmacSha1_80
        } else if id == 2 {
            SrtpProtectionProfile::Aes128CmHmacSha1_32
        } else if id == 7 {
            SrtpProtectionProfile::AeadAes128Gcm
        } else if id == 8 {
            SrtpProtectionProfile::AeadAes256Gcm
        } else {
            SrtpProtectionProfile::Unsupported
        }
    }

    /// Mapping a profile to its id and back yields the profile again.
    pub proof fn lemma_id_round_trip(self)
        ensures
            SrtpProtectionProfile::spec_from_id(self.spec_id()) == self,
    {
    }
}

impl Default for SrtpProtectionProfile {
    /// The profile before negotiation: `Unsupported`.
    fn default() -> (r: Self)
        ensures
            r == SrtpProtectionProfile::Unsupported,
    {
        SrtpProtectionProfile::Unsupported
    }
}

} // verus!

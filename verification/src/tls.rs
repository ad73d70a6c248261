//! What the self-signed certificate of the TLS listener is asked to say.
//! Issuing it is left to the caller; nothing here touches keys.

use vstd::prelude::*;

verus! {

/// How long a certificate is valid, in days.
pub const VALIDITY_DAYS: i64 = 365;

pub const SECONDS_PER_DAY: i64 = 86400;

/// What a certificate is asked to say.
#[derive(Clone, Copy, Debug)]
pub struct CertificateRequest {
    pub common_name: &'static str,
    pub organization: &'static str,
    /// The DNS name the certificate is good for.
    pub dns_name: &'static str,
    /// The IPv4 address the certificate is good for.
    pub ip_address: [u8; 4],
    pub validity_days: i64,
}

impl CertificateRequest {
    /// The request for this server's certificate: `localhost` of
    /// `Development`, good for the name `localhost` and the loopback address,
    /// for 365 days.
    pub fn localhost() -> (request: CertificateRequest)
        ensures
            request.common_name@ == "localhost"@,
            request.organization@ == "Development"@,
            request.dns_name@ == "localhost"@,
            request.ip_address@ == seq![127u8, 0u8, 0u8, 1u8],
            request.validity_days == VALIDITY_DAYS,
    {
        let ip_address: [u8; 4] = [127, 0, 0, 1];
        assert(ip_address@ =~= seq![127u8, 0u8, 0u8, 1u8]);
        CertificateRequest {
            common_name: "localhost",
            organization: "Development",
            dns_name: "localhost",
            ip_address,
            validity_days: VALIDITY_DAYS,
        }
    }

    /// Whether a certificate issued at `not_before` runs out within the range
    /// of the clock.
    pub open spec fn fits(self, not_before: i64) -> bool {
        i64::MIN <= not_before + self.validity_days * SECONDS_PER_DAY <= i64::MAX
    }

    /// The last moment of a certificate issued at `not_before`, both in
    /// seconds since the epoch: `validity_days` later, or nothing where the
    /// clock cannot say it.
    pub fn not_after(&self, not_before: i64) -> (moment: Option<i64>)
        ensures
            match moment {
                Some(t) => self.fits(not_before) && t == not_before + self.validity_days
                    * SECONDS_PER_DAY,
                None => !self.fits(not_before),
            },
    {
        let span: i128 = (self.validity_days as i128) * (SECONDS_PER_DAY as i128);
        let end: i128 = (not_before as i128) + span;
        if end < i64::MIN as i128 || end > i64::MAX as i128 {
            None
        } else {
            Some(end as i64)
        }
    }
}

} // verus!

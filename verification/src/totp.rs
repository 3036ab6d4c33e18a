//! Time-based one-time passwords, from `otpauth://` URIs.

use totp_rs::TOTP;
use vstd::prelude::*;

use crate::secret::Secret;
use crate::text::{
    ascii_lower, has_prefix, is_digit, strip_prefix, to_ascii_lower, trim, trimmed,
};

verus! {

/// An enrolment URI for time-based codes, by its scheme and host. Letter case and
/// white space round it do not count.
pub open spec fn is_totp_uri(uri: Seq<char>) -> bool {
    let low = ascii_lower(trimmed(uri));
    has_prefix(low, "otpauth://totp/"@) || has_prefix(low, "otpauth://totp?"@)
}

/// The period in seconds and the number of digits that `TOTP::from_url` reads
/// from an enrolment URI; nothing if it rejects the URI.
pub uninterp spec fn totp_timing(uri: Seq<char>) -> Option<(u64, usize)>;

/// The code that `TOTP::generate` gives for an enrolment URI at a Unix time.
pub uninterp spec fn totp_code(uri: Seq<char>, time: u64) -> Seq<char>;

/// The URI that `TOTP::get_url` writes for what `TOTP::from_url` read.
pub uninterp spec fn totp_url(uri: Seq<char>) -> Seq<char>;

/// `TOTP::from_url`, of which the period and the number of digits are kept. It
/// accepts six to eight digits only. A URI without a host makes it panic, so it
/// is called with URIs whose host is `totp`.
#[verifier::external_body]
fn read_timing(uri: &str) -> (timing: Option<(u64, usize)>)
    requires
        is_totp_uri(uri@),
    ensures
        timing == totp_timing(uri@),
        timing matches Some((_, digits)) ==> 6 <= digits <= 8,
{
    TOTP::from_url(uri).ok().map(|totp| (totp.step, totp.digits))
}

/// When the period that a time falls into began.
pub open spec fn period_start(time: u64, step: u64) -> u64 {
    (time - time % step) as u64
}

/// `TOTP::generate` on what `TOTP::from_url` reads: as many decimal digits as
/// the URI asks for. It divides the time by the period, so the period is not
/// zero, and the code is the same all through a period.
#[verifier::external_body]
fn generate(uri: &str, time: u64) -> (code: String)
    requires
        is_totp_uri(uri@),
        totp_timing(uri@) matches Some((step, _)) && step > 0,
    ensures
        code@ == totp_code(uri@, time),
        code@ == totp_code(uri@, period_start(time, totp_timing(uri@).unwrap().0)),
        code@.len() == totp_timing(uri@).unwrap().1,
        forall|i: int| 0 <= i < code@.len() ==> is_digit(#[trigger] code@[i]),
{
    TOTP::from_url(uri).map(|totp| totp.generate(time)).unwrap_or_default()
}

/// `TOTP::get_url` on what `TOTP::from_url` reads.
#[verifier::external_body]
fn write_url(uri: &str) -> (url: String)
    requires
        is_totp_uri(uri@),
        totp_timing(uri@) is Some,
    ensures
        url@ == totp_url(uri@),
{
    TOTP::from_url(uri).map(|totp| totp.get_url()).unwrap_or_default()
}

/// The one-time password settings of an entry. The enrolment URI holds the
/// shared secret and is kept as one.
#[derive(Debug)]
pub struct Totp {
    uri: Secret,
    step: u64,
    digits: usize,
}

/// What one-time password settings say.
pub struct TotpModel {
    pub uri: Seq<char>,
    pub step: u64,
    pub digits: usize,
}

impl View for Totp {
    type V = TotpModel;

    closed spec fn view(&self) -> TotpModel {
        TotpModel { uri: self.uri@, step: self.step, digits: self.digits }
    }
}

/// The settings that an enrolment URI stands for: those that `totp_rs` reads
/// from it, if the period is not zero.
pub open spec fn settings_of(uri: Seq<char>) -> Option<TotpModel> {
    match totp_timing(uri) {
        Some((step, digits)) if is_totp_uri(uri) && step > 0 => Some(
            TotpModel { uri, step, digits },
        ),
        _ => None,
    }
}

impl Totp {
    #[verifier::type_invariant]
    spec fn readable(self) -> bool {
        settings_of(self.uri@) == Some(self@) && 6 <= self.digits <= 8
    }

    /// Reads an enrolment URI.
    pub fn from_uri(uri: String) -> (totp: Option<Totp>)
        ensures
            match totp {
                Some(totp) => settings_of(uri@) == Some(totp@),
                None => settings_of(uri@) is None,
            },
    {
        let low: String = to_ascii_lower(trim(uri.as_str()).as_str());
        if strip_prefix(low.as_str(), "otpauth://totp/").is_none() && strip_prefix(
            low.as_str(),
            "otpauth://totp?",
        ).is_none() {
            return None;
        }
        match read_timing(uri.as_str()) {
            Some((step, digits)) => if step > 0 {
                Some(Totp { uri: Secret::new(uri), step, digits })
            } else {
                None
            },
            None => None,
        }
    }

    /// How long a code stays valid, in seconds.
    pub fn step(&self) -> (step: u64)
        ensures
            step == self@.step,
            step > 0,
    {
        proof {
            use_type_invariant(self);
        }
        self.step
    }

    /// The number of digits of a code.
    pub fn digits(&self) -> (digits: usize)
        ensures
            digits == self@.digits,
            6 <= digits <= 8,
    {
        proof {
            use_type_invariant(self);
        }
        self.digits
    }

    /// The code at `time`, in seconds since the Unix epoch. It is that of the
    /// whole period.
    pub fn code_at(&self, time: u64) -> (code: Secret)
        ensures
            code@ == totp_code(self@.uri, time),
            code@ == totp_code(self@.uri, period_start(time, self@.step)),
            code@.len() == self@.digits,
            forall|i: int| 0 <= i < code@.len() ==> is_digit(#[trigger] code@[i]),
    {
        proof {
            use_type_invariant(self);
        }
        Secret::new(generate(self.uri.expose_secret(), time))
    }

    /// The enrolment URI in canonical form.
    pub fn url(&self) -> (url: Secret)
        ensures
            url@ == totp_url(self@.uri),
    {
        proof {
            use_type_invariant(self);
        }
        Secret::new(write_url(self.uri.expose_secret()))
    }
}

} // verus!

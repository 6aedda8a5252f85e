//! Errors of the register-level clients.
use vstd::prelude::*;

verus! {

/// Errors that can occur talking to an LTC2949. `E` is the error of the host's SPI device.
#[derive(Eq, PartialEq)]
pub enum Error<E> {
    /// Underlying SPI transaction failed.
    BusError(E),
    /// A returned PEC did not match the calculated value.
    ChecksumMismatch,
    /// A threshold was non-finite, used an invalid clock/shunt configuration, had its low
    /// bound above its high bound, or did not fit in the corresponding register.
    InvalidThreshold,
    /// A gain factor or resistance used to derive one was zero, negative, NaN, or infinite.
    InvalidGainCorrection,
    /// The host has not yet carried out the action that the client asked for last.
    Awaiting,
}

impl<E> Error<E> {
    /// The name of the error, without what a bus error carries.
    pub open spec fn spec_name(&self) -> &'static str {
        match self {
            Error::BusError(_) => "BusError",
            Error::ChecksumMismatch => "ChecksumMismatch",
            Error::InvalidThreshold => "InvalidThreshold",
            Error::InvalidGainCorrection => "InvalidGainCorrection",
            Error::Awaiting => "Awaiting",
        }
    }

    /// Returns the name of the error, without what a bus error carries.
    #[verifier::when_used_as_spec(spec_name)]
    pub fn name(&self) -> (name: &'static str)
        ensures
            name == self.spec_name(),
    {
        match self {
            Error::BusError(_) => "BusError",
            Error::ChecksumMismatch => "ChecksumMismatch",
            Error::InvalidThreshold => "InvalidThreshold",
            Error::InvalidGainCorrection => "InvalidGainCorrection",
            Error::Awaiting => "Awaiting",
        }
    }
}

impl<E> core::fmt::Debug for Error<E> {
    /// Writes the name of the error.
    fn fmt(&self, f: &mut core::fmt::Formatter<'_>) -> (result: core::fmt::Result)
        ensures
            result is Ok ==> written(*final(f)) == written(*old(f)) + self.name()@,
    {
        write_str(f, self.name())
    }
}

/// `core::fmt::Formatter`, which a debug text is written to.
#[verifier::external_type_specification]
#[verifier::external_body]
pub struct ExFormatter<'a>(core::fmt::Formatter<'a>);

/// `core::fmt::Error`, which a formatter that cannot be written to ends in.
#[verifier::external_type_specification]
#[verifier::external_body]
pub struct ExFmtError(core::fmt::Error);

/// The text that was written to a formatter.
pub uninterp spec fn written(f: core::fmt::Formatter<'_>) -> Seq<char>;

/// `core::fmt::Formatter::write_str` writes `text` to the buffer of the formatter, behind what
/// was written before, unless it reports an error. How much arrives before an error is not said.
#[verifier::external_body]
fn write_str(f: &mut core::fmt::Formatter<'_>, text: &str) -> (result: core::fmt::Result)
    ensures
        result is Ok ==> written(*final(f)) == written(*old(f)) + text@,
{
    f.write_str(text)
}

} // verus!

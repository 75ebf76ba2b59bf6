//! The parameters of a time-based one-time password and the codes that they
//! give.

use crate::error::{Error, ErrorView};
use crate::text::{chars_of, equals_lowercased, lowercase_is};
use vstd::prelude::*;

verus! {

/// The hash function under the code.
#[derive(Debug, Clone, Copy, PartialEq, Eq, Structural)]
pub enum Algorithm {
    Sha1,
    Sha256,
    Sha512,
}

impl Algorithm {
    /// The name of the algorithm, in small letters.
    pub open spec fn name(self) -> Seq<char> {
        match self {
            Algorithm::Sha1 => "sha1"@,
            Algorithm::Sha256 => "sha256"@,
            Algorithm::Sha512 => "sha512"@,
        }
    }
}

/// The algorithm that `text` names, whatever the case of its letters.
pub open spec fn named_algorithm(text: Seq<char>) -> Option<Algorithm> {
    if lowercase_is(text, Algorithm::Sha1.name()) {
        Some(Algorithm::Sha1)
    } else if lowercase_is(text, Algorithm::Sha256.name()) {
        Some(Algorithm::Sha256)
    } else if lowercase_is(text, Algorithm::Sha512.name()) {
        Some(Algorithm::Sha512)
    } else {
        None
    }
}

/// The view of an algorithm or of the error in its place.
pub open spec fn algorithm_outcome(outcome: Result<Algorithm, Error>) -> Result<
    Algorithm,
    ErrorView,
> {
    match outcome {
        Ok(algorithm) => Ok(algorithm),
        Err(error) => Err(error@),
    }
}

/// Reads an algorithm name. Letters of either case are taken alike; a text
/// that names none of the three algorithms is handed back in the error.
pub fn parse_algo(s: &str) -> (algorithm: Result<Algorithm, Error>)
    ensures
        algorithm_outcome(algorithm) == match named_algorithm(s@) {
            Some(named) => Ok::<Algorithm, ErrorView>(named),
            None => Err(ErrorView::UnsupportedAlgorithm(s@)),
        },
{
    let text = chars_of(s);
    if equals_lowercased(&text, &chars_of("sha1")) {
        Ok(Algorithm::Sha1)
    } else if equals_lowercased(&text, &chars_of("sha256")) {
        Ok(Algorithm::Sha256)
    } else if equals_lowercased(&text, &chars_of("sha512")) {
        Ok(Algorithm::Sha512)
    } else {
        Err(Error::UnsupportedAlgorithm(s.to_owned()))
    }
}

/// The number of time steps before and after the present one whose codes a
/// verifier would take. It is fixed.
pub const SKEW: u8 = 1;

/// The algorithm of a code where none is asked for.
pub const DEFAULT_ALGORITHM: &'static str = "sha1";

/// The number of digits of a code where none is asked for.
pub const DEFAULT_DIGITS: usize = 6;

/// The period of a code, in seconds, where none is asked for.
pub const DEFAULT_PERIOD: u64 = 30;

/// All that a code is computed from, but for the time.
#[derive(Debug, Clone, PartialEq, Eq)]
pub struct TotpParams {
    pub algorithm: Algorithm,
    pub digits: usize,
    pub skew: u8,
    pub period: u64,
    pub key: Vec<u8>,
}

/// [`TotpParams`] with the key as a sequence of bytes.
pub struct TotpParamsView {
    pub algorithm: Algorithm,
    pub digits: usize,
    pub skew: u8,
    pub period: u64,
    pub key: Seq<u8>,
}

impl View for TotpParams {
    type V = TotpParamsView;

    open spec fn view(&self) -> TotpParamsView {
        TotpParamsView {
            algorithm: self.algorithm,
            digits: self.digits,
            skew: self.skew,
            period: self.period,
            key: self.key@,
        }
    }
}

/// Whether a code can have `digits` digits and be keyed with `key_bytes`
/// bytes.
pub open spec fn acceptable(digits: usize, key_bytes: nat) -> bool {
    6 <= digits <= 8 && key_bytes >= 16
}

/// The code that `totp_rs::TOTP::generate` computes at `time`, in seconds
/// since the Unix epoch, from these parameters.
pub uninterp spec fn totp_code(
    algorithm: Algorithm,
    digits: usize,
    period: u64,
    key: Seq<u8>,
    time: u64,
) -> Seq<char>;

/// Whether `code` is made of `digits` decimal digits.
pub open spec fn is_numeric_code(code: Seq<char>, digits: usize) -> bool {
    &&& code.len() == digits
    &&& forall|i: int| 0 <= i < code.len() ==> 0x30 <= #[trigger] code[i] as u32 <= 0x39
}

impl TotpParamsView {
    /// Parameters as [`resolve`] makes them.
    pub open spec fn wf(self) -> bool {
        acceptable(self.digits, self.key.len()) && self.skew == SKEW
    }

    /// The code at `time`, in seconds since the Unix epoch.
    pub open spec fn code_at(self, time: u64) -> Seq<char> {
        totp_code(self.algorithm, self.digits, self.period, self.key, time)
    }

    /// Whether `code` is the code of these parameters at some time.
    pub open spec fn gives(self, code: Seq<char>) -> bool {
        &&& is_numeric_code(code, self.digits)
        &&& exists|time: u64| code == #[trigger] self.code_at(time)
    }
}

/// The error of `totp_rs::TOTP::new`.
#[verifier::external_type_specification]
#[verifier::external_body]
pub struct ExTotpUrlError(totp_rs::TotpUrlError);

/// The error of `totp_rs::TOTP::generate_current`: the system clock is
/// before the Unix epoch.
#[verifier::external_type_specification]
#[verifier::external_body]
pub struct ExSystemTimeError(std::time::SystemTimeError);

/// Calls `totp_rs::TOTP::new` and hands back the fields of what it made. It
/// refuses a digit count outside 6 to 8 and a key under 16 bytes, and
/// nothing else; what it makes holds the values that it was given.
#[verifier::external_body]
fn totp_new(algorithm: Algorithm, digits: usize, skew: u8, period: u64, key: Vec<u8>) -> (made: Result<
    TotpParams,
    totp_rs::TotpUrlError,
>)
    ensures
        made is Ok <==> acceptable(digits, key@.len()),
        made matches Ok(params) ==> params@ == (TotpParamsView {
            algorithm,
            digits,
            skew,
            period,
            key: key@,
        }),
{
    let hash = match algorithm {
        Algorithm::Sha1 => totp_rs::Algorithm::SHA1,
        Algorithm::Sha256 => totp_rs::Algorithm::SHA256,
        Algorithm::Sha512 => totp_rs::Algorithm::SHA512,
    };
    let totp = totp_rs::TOTP::new(hash, digits, skew, period, key)?;
    let (digits, skew, period, key) = (totp.digits, totp.skew, totp.step, totp.secret);
    Ok(TotpParams { algorithm, digits, skew, period, key })
}

/// Calls `totp_rs::TOTP::generate` on a `TOTP` with the fields of `params`.
/// The result is a function of the parameters and the time, named
/// [`totp_code`]; it is printed with as many digits as asked for, zeros in
/// front. A period of zero is left out: the time is divided by it.
#[verifier::external_body]
fn totp_generate(params: &TotpParams, time: u64) -> (code: String)
    requires
        6 <= params.digits <= 8,
        params.period > 0,
    ensures
        code@ == totp_code(params.algorithm, params.digits, params.period, params.key@, time),
        is_numeric_code(code@, params.digits),
{
    let algorithm = match params.algorithm {
        Algorithm::Sha1 => totp_rs::Algorithm::SHA1,
        Algorithm::Sha256 => totp_rs::Algorithm::SHA256,
        Algorithm::Sha512 => totp_rs::Algorithm::SHA512,
    };
    let (digits, skew, step) = (params.digits, params.skew, params.period);
    totp_rs::TOTP { algorithm, digits, skew, step, secret: params.key.clone() }.generate(time)
}

/// Calls `totp_rs::TOTP::generate_current` on a `TOTP` with the fields of
/// `params`. It reads the system clock and fails where the clock is before
/// the Unix epoch; else it gives what `generate` gives for the time read.
/// Which time that is, nothing says here: a code that comes back is the code
/// of some time. A period of zero is left out, as for `generate`.
#[verifier::external_body]
fn totp_generate_current(params: &TotpParams) -> (code: Result<String, std::time::SystemTimeError>)
    requires
        6 <= params.digits <= 8,
        params.period > 0,
    ensures
        code matches Ok(text) ==> params@.gives(text@),
{
    let algorithm = match params.algorithm {
        Algorithm::Sha1 => totp_rs::Algorithm::SHA1,
        Algorithm::Sha256 => totp_rs::Algorithm::SHA256,
        Algorithm::Sha512 => totp_rs::Algorithm::SHA512,
    };
    let (digits, skew, step) = (params.digits, params.skew, params.period);
    totp_rs::TOTP { algorithm, digits, skew, step, secret: params.key.clone() }.generate_current()
}

/// What [`resolve`] answers: the parameters, or the error for a name that is
/// no algorithm's, or else the error for a digit count or key length that no
/// code can be made with.
pub open spec fn resolved(algorithm_name: Seq<char>, digits: usize, period: u64, key: Seq<u8>) -> Result<
    TotpParamsView,
    ErrorView,
> {
    match named_algorithm(algorithm_name) {
        None => Err(ErrorView::UnsupportedAlgorithm(algorithm_name)),
        Some(algorithm) => if acceptable(digits, key.len()) {
            Ok(TotpParamsView { algorithm, digits, skew: SKEW, period, key })
        } else {
            Err(ErrorView::InvalidTotpConfig)
        },
    }
}

/// The view of parameters or of the error in their place.
pub open spec fn params_outcome(outcome: Result<TotpParams, Error>) -> Result<
    TotpParamsView,
    ErrorView,
> {
    match outcome {
        Ok(params) => Ok(params@),
        Err(error) => Err(error@),
    }
}

/// Puts the parameters of a code together: the algorithm by its name, 6 to 8
/// digits, the period in seconds and a key of at least 16 bytes.
pub fn resolve(algorithm_name: &str, digits: usize, period: u64, key: Vec<u8>) -> (params: Result<
    TotpParams,
    Error,
>)
    ensures
        params_outcome(params) == resolved(algorithm_name@, digits, period, key@),
        params matches Ok(made) ==> made@.wf(),
{
    match parse_algo(algorithm_name) {
        Err(error) => Err(error),
        Ok(algorithm) => match totp_new(algorithm, digits, SKEW, period, key) {
            Ok(params) => Ok(params),
            Err(_) => Err(Error::InvalidTotpConfig),
        },
    }
}

/// The code at `time`, in seconds since the Unix epoch.
pub fn generate_at(params: &TotpParams, time: u64) -> (code: String)
    requires
        params@.wf(),
        params.period > 0,
    ensures
        code@ == params@.code_at(time),
        is_numeric_code(code@, params.digits),
{
    totp_generate(params, time)
}

/// The code or the error for what the generator handed back.
pub fn code_outcome(generated: Result<String, std::time::SystemTimeError>) -> (code: Result<
    String,
    Error,
>)
    ensures
        match generated {
            Ok(text) => code == Ok::<String, Error>(text),
            Err(_) => code matches Err(error) && error@ == ErrorView::CodeGenerationError,
        },
{
    match generated {
        Ok(text) => Ok(text),
        Err(_) => Err(Error::CodeGenerationError),
    }
}

/// The code at the present time, by the system clock.
pub fn generate_current(params: &TotpParams) -> (code: Result<String, Error>)
    requires
        params@.wf(),
        params.period > 0,
    ensures
        match code {
            Ok(text) => params@.gives(text@),
            Err(error) => error@ == ErrorView::CodeGenerationError,
        },
{
    code_outcome(totp_generate_current(params))
}

} // verus!

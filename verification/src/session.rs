//! Arithmetic and strings computed by the Lean runtime.
use vstd::prelude::*;

use leo3::types::{LeanNat, LeanString};
use leo3::LeanError;
use vstd::arithmetic::power::pow;

use crate::environment::{error_text, lean_error_text};
use crate::text::{all_digits, chars_of, decimal, decimal_value, lemma_decimal_round_trip, read_decimal};

verus! {

/// Why a computation gave no result.
#[derive(Clone, Debug, PartialEq, Eq)]
pub enum SessionError {
    /// The number does not fit in a `usize`.
    TooLarge,
    /// Lean itself reported a failure.
    Lean { message: String },
}

impl SessionError {
    /// The text of the error.
    pub open spec fn text(self) -> Seq<char> {
        match self {
            SessionError::TooLarge => "conversion error: Natural number too large for usize"@,
            SessionError::Lean { message } => message@,
        }
    }

    /// The text of the error, as a caller sees it.
    pub fn message(&self) -> (r: String)
        ensures
            r@ == self.text(),
    {
        match self {
            SessionError::TooLarge => {
                "conversion error: Natural number too large for usize".to_owned()
            },
            SessionError::Lean { message } => message.clone(),
        }
    }
}

/// Makes a Lean `Nat` with `LeanNat::from_usize` and prints it with `LeanNat::repr`. Claimed: this
/// never fails and gives the decimal numeral of the number.
#[verifier::external_body]
fn lean_nat_text(n: usize) -> (r: Result<String, LeanError>)
    ensures
        r is Ok,
        r->Ok_0@ == decimal(n as nat),
{
    leo3::with_lean(|lean| {
        let value = LeanNat::from_usize(lean, n)?;
        Ok(LeanNat::repr(&value))
    })
}

/// Adds two Lean `Nat`s with `LeanNat::add` and prints the sum with `LeanNat::repr`. Claimed: this
/// never fails and gives the decimal numeral of the exact sum.
#[verifier::external_body]
fn lean_nat_sum_text(a: usize, b: usize) -> (r: Result<String, LeanError>)
    ensures
        r is Ok,
        r->Ok_0@ == decimal((a + b) as nat),
{
    leo3::with_lean(|lean| {
        let x = LeanNat::from_usize(lean, a)?;
        let y = LeanNat::from_usize(lean, b)?;
        let sum = LeanNat::add(x, y)?;
        Ok(LeanNat::repr(&sum))
    })
}

/// Raises a Lean `Nat` to a power with `LeanNat::pow` and prints it with `LeanNat::repr`. Claimed:
/// this never fails and gives the decimal numeral of the exact power. An exponent above `u32::MAX`
/// is left out: `leo3` hands it on unchecked, and `lean_nat_pow` of the Lean 4.25.2 runtime, the
/// version that this crate is built for, aborts on it.
#[verifier::external_body]
fn lean_nat_power_text(base: usize, exponent: usize) -> (r: Result<String, LeanError>)
    requires
        exponent <= u32::MAX,
    ensures
        r is Ok,
        r->Ok_0@ == decimal(pow(base as int, exponent as nat) as nat),
{
    leo3::with_lean(|lean| {
        let x = LeanNat::from_usize(lean, base)?;
        let y = LeanNat::from_usize(lean, exponent)?;
        let power = LeanNat::pow(x, y)?;
        Ok(LeanNat::repr(&power))
    })
}

/// Makes a Lean `String` with `LeanString::mk` and reads it back with `LeanString::cstr`. Claimed:
/// a text without a NUL character comes back unchanged; one with a NUL character is refused,
/// because it is handed over as a C string.
#[verifier::external_body]
fn lean_string_echo(s: &str) -> (r: Result<String, LeanError>)
    ensures
        s@.contains('\0') ==> r is Err,
        !s@.contains('\0') ==> r is Ok,
        !s@.contains('\0') ==> r->Ok_0@ == s@,
{
    leo3::with_lean(|lean| {
        let value = LeanString::mk(lean, s)?;
        Ok(LeanString::cstr(&value)?.to_owned())
    })
}

/// Reads a numeral that Lean printed. `LeanNat::to_usize` only takes numbers that Lean keeps
/// unboxed, which is half of them; the numeral has no such limit.
pub fn read_nat(numeral: &str) -> (r: Result<u64, SessionError>)
    ensures
        r == (if numeral@.len() > 0 && all_digits(numeral@) && decimal_value(numeral@)
            <= usize::MAX {
            Ok(decimal_value(numeral@) as u64)
        } else {
            Err(SessionError::TooLarge)
        }),
{
    match read_decimal(numeral) {
        Some(v) => Ok(v as u64),
        None => Err(SessionError::TooLarge),
    }
}

/// Passes a failure of `leo3` on.
fn lean_failure(e: LeanError) -> (r: SessionError)
    ensures
        r matches SessionError::Lean { message } && message@ == error_text(e),
{
    SessionError::Lean { message: lean_error_text(&e) }
}

/// A session into the shared Lean runtime. It holds no state of its own; each call runs on the
/// calling thread, which is attached to the runtime on first use.
pub struct LeanSession {
    _private: (),
}

impl LeanSession {
    /// A session. Nothing happens in the runtime until the first operation.
    pub fn new() -> (r: LeanSession) {
        LeanSession { _private: () }
    }

    /// Passes a number through a Lean `Nat`.
    pub fn nat_roundtrip(&self, n: u64) -> (r: Result<u64, SessionError>)
        ensures
            r == Ok::<u64, SessionError>((n as usize) as u64),
            n <= usize::MAX ==> r == Ok::<u64, SessionError>(n),
    {
        proof {
            lemma_decimal_round_trip((n as usize) as nat);
        }
        match lean_nat_text(n as usize) {
            Ok(numeral) => read_nat(numeral.as_str()),
            Err(e) => Err(lean_failure(e)),
        }
    }

    /// Adds two numbers with Lean's `Nat.add`.
    pub fn nat_add(&self, a: u64, b: u64) -> (r: Result<u64, SessionError>)
        ensures
            r == (if (a as usize) + (b as usize) <= usize::MAX {
                Ok(((a as usize) + (b as usize)) as u64)
            } else {
                Err(SessionError::TooLarge)
            }),
            a + b <= usize::MAX ==> r == Ok::<u64, SessionError>((a + b) as u64),
    {
        proof {
            lemma_decimal_round_trip(((a as usize) + (b as usize)) as nat);
        }
        match lean_nat_sum_text(a as usize, b as usize) {
            Ok(numeral) => read_nat(numeral.as_str()),
            Err(e) => Err(lean_failure(e)),
        }
    }

    /// `a ^ b` computed by Lean's `Nat.pow`, as a decimal numeral, exact beyond `u64`.
    pub fn pow_str(&self, a: u64, b: u64) -> (r: Result<String, SessionError>)
        requires
            (b as usize) <= u32::MAX,
        ensures
            r matches Ok(s) && s@ == decimal(pow((a as usize) as int, (b as usize) as nat) as nat),
    {
        match lean_nat_power_text(a as usize, b as usize) {
            Ok(numeral) => Ok(numeral),
            Err(e) => Err(lean_failure(e)),
        }
    }

    /// Passes a text through Lean `String`s. NUL characters, which cannot be handed over, part the
    /// text into pieces that are passed one by one.
    pub fn string_roundtrip(&self, s: &str) -> (r: Result<String, SessionError>)
        ensures
            r matches Ok(t) && t@ == s@,
    {
        let chars = chars_of(s);
        let mut out = String::new();
        let mut start: usize = 0;
        let mut end: usize = 0;
        proof {
            reveal_strlit("\0");
        }
        while end < chars.len()
            invariant
                chars@ == s@,
                start <= end <= chars.len(),
                out@ == s@.take(start as int),
                forall|j: int| start <= j < end ==> s@[j] != '\0',
                "\0"@ == seq!['\0'],
            decreases chars.len() - end,
        {
            if chars[end] == '\0' {
                match lean_string_echo(s.substring_char(start, end)) {
                    Ok(piece) => {
                        out.append(piece.as_str());
                    },
                    Err(e) => {
                        return Err(lean_failure(e));
                    },
                }
                out.append("\0");
                assert(out@ =~= s@.take(end + 1));
                start = end + 1;
            }
            end = end + 1;
        }
        match lean_string_echo(s.substring_char(start, end)) {
            Ok(piece) => {
                out.append(piece.as_str());
                assert(out@ =~= s@);
                Ok(out)
            },
            Err(e) => Err(lean_failure(e)),
        }
    }
}

/// What each error says.
pub proof fn law_session_errors_read(message: String)
    ensures
        SessionError::TooLarge.text() == "conversion error: Natural number too large for usize"@,
        (SessionError::Lean { message }).text() == message@,
{
}

} // verus!

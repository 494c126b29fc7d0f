use vstd::prelude::*;
use vstd::string::StringSliceAdditionalSpecFns;
use vstd::utf8::encode_utf8;

verus! {

/// The UTF-8 bytes of a string, over which the numeral grammar is stated.
pub open spec fn bytes_of(s: Seq<char>) -> Seq<u8> {
    encode_utf8(s)
}

/// An ASCII decimal digit.
pub open spec fn is_dec_digit(b: u8) -> bool {
    48 <= b <= 57
}

/// Every byte is an ASCII decimal digit.
pub open spec fn all_dec_digits(s: Seq<u8>) -> bool {
    forall|i: int| 0 <= i < s.len() ==> is_dec_digit(#[trigger] s[i])
}

/// A numeral may carry one leading plus sign; its body is what remains.
pub open spec fn numeral_body(s: Seq<u8>) -> Seq<u8> {
    if s.len() > 0 && s[0] == 43 {
        s.drop_first()
    } else {
        s
    }
}

/// The bytes spell an unsigned decimal numeral: after an optional leading
/// plus sign, at least one digit and nothing but digits.
pub open spec fn is_numeral(s: Seq<u8>) -> bool {
    numeral_body(s).len() > 0 && all_dec_digits(numeral_body(s))
}

/// The value of a sequence of decimal digits, most significant first.
pub open spec fn dec_value(s: Seq<u8>) -> int
    decreases s.len(),
{
    if s.len() == 0 {
        0
    } else {
        dec_value(s.drop_last()) * 10 + (s.last() - 48)
    }
}

/// The value a numeral spells.
pub open spec fn numeral_value(s: Seq<u8>) -> int {
    dec_value(numeral_body(s))
}

/// A repeat count the benchmark accepts.
pub open spec fn valid_count(v: int) -> bool {
    1 <= v <= 10
}

proof fn lemma_dec_value_nonneg(s: Seq<u8>)
    requires
        all_dec_digits(s),
    ensures
        dec_value(s) >= 0,
    decreases s.len(),
{
    if s.len() > 0 {
        lemma_dec_value_nonneg(s.drop_last());
        assert(dec_value(s.drop_last()) * 10 >= 0) by (nonlinear_arith)
            requires
                dec_value(s.drop_last()) >= 0,
        ;
    }
}

/// Reading further digits never shrinks the value a digit string spells.
proof fn lemma_dec_value_monotone(s: Seq<u8>, i: int)
    requires
        all_dec_digits(s),
        0 <= i <= s.len(),
    ensures
        dec_value(s.take(i)) <= dec_value(s),
    decreases s.len() - i,
{
    if i < s.len() {
        lemma_dec_value_monotone(s, i + 1);
        assert(s.take(i + 1).drop_last() =~= s.take(i));
        assert(all_dec_digits(s.take(i))) by {
            assert(forall|k: int|
                0 <= k < s.take(i).len() ==> s.take(i)[k] == #[trigger] s[k]);
        }
        lemma_dec_value_nonneg(s.take(i));
        assert(dec_value(s.take(i)) * 10 >= dec_value(s.take(i))) by (nonlinear_arith)
            requires
                dec_value(s.take(i)) >= 0,
        ;
    } else {
        assert(s.take(i) =~= s);
    }
}

/// Parses an unsigned decimal numeral, exactly as `usize` is read from a
/// string: an optional leading plus sign, then digits only; any other
/// character, an empty body, or a value over `usize::MAX` is rejected.
pub fn parse_count(s: &str) -> (r: Option<usize>)
    ensures
        match r {
            Some(v) => is_numeral(s.spec_bytes()) && v == numeral_value(s.spec_bytes()),
            None => !(is_numeral(s.spec_bytes()) && numeral_value(s.spec_bytes()) <= usize::MAX),
        },
{
    let b = s.as_bytes();
    let ghost body = numeral_body(s.spec_bytes());
    let n = b.len();
    let mut i: usize = 0;
    if n > 0 && b[0] == 43 {
        i = 1;
    }
    let ghost start = i as int;
    proof {
        assert(body =~= b@.skip(start));
        assert(body.take(0) =~= Seq::<u8>::empty());
    }
    if i == n {
        // no digits at all
        return None;
    }
    let mut value: usize = 0;
    while i < n
        invariant
            n == b@.len(),
            b@ == s.spec_bytes(),
            body == numeral_body(s.spec_bytes()),
            body == b@.skip(start),
            0 <= start <= i <= n,
            all_dec_digits(body.take(i - start)),
            value == dec_value(body.take(i - start)),
        decreases n - i,
    {
        let d = b[i];
        proof {
            assert(body[i - start] == b@[i as int]);
            assert(body.take(i - start + 1).drop_last() =~= body.take(i - start));
        }
        if d < 48 || d > 57 {
            // a non-digit: the bytes spell no numeral
            return None;
        }
        let wide: u128 = value as u128 * 10 + (d - 48) as u128;
        if wide > usize::MAX as u128 {
            proof {
                lemma_dec_value_nonneg(body.take(i - start + 1));
                if all_dec_digits(body) {
                    lemma_dec_value_monotone(body, i - start + 1);
                }
            }
            return None;
        }
        value = wide as usize;
        i = i + 1;
    }
    proof {
        assert(body.take(n - start) =~= body);
    }
    Some(value)
}

/// Why the command line was rejected before any request was dispatched.
#[derive(Clone, Copy, PartialEq, Eq, Structural, Debug)]
pub enum ArgumentError {
    /// Not exactly two arguments were given (and not the single usage word).
    WrongArgumentCount,
    /// The repeat-count argument is not an unsigned decimal numeral.
    NotANumber,
    /// The repeat count lies outside 1 through 10.
    CountOutOfRange,
    /// The target argument does not parse as a URI.
    InvalidUri,
    /// The target URI carries no scheme, so it is not absolute.
    NotAbsoluteUri,
}

/// The validated configuration: constructed once at the boundary and passed
/// down as a value; the core never reads arguments ad hoc afterwards.
#[derive(Clone, PartialEq, Eq, Debug)]
pub struct Arguments {
    pub number_of_requests: usize,
    pub uri: String,
}

/// Whether the characters parse as a URI under `http::Uri`'s grammar.
pub uninterp spec fn uri_is_valid(s: Seq<char>) -> bool;

/// Whether the characters parse as a URI that carries a scheme.
pub uninterp spec fn uri_is_absolute(s: Seq<char>) -> bool;

/// How a target string classifies as a URI.
#[derive(Clone, Copy, PartialEq, Eq, Structural, Debug)]
pub enum UriClass {
    /// The string does not parse as a URI.
    Invalid,
    /// The string parses, but names no scheme.
    Relative,
    /// The string parses and names a scheme.
    Absolute,
}

/// Relies on `http::Uri`'s `FromStr` impl and `http::Uri::scheme`: whether a
/// string parses as a URI, and whether the parsed URI then carries a scheme,
/// are functions of the string's characters alone.
#[verifier::external_body]
fn classify_uri(s: &String) -> (r: UriClass)
    ensures
        (r is Invalid) == !uri_is_valid(s@),
        (r is Relative) == (uri_is_valid(s@) && !uri_is_absolute(s@)),
        (r is Absolute) == (uri_is_valid(s@) && uri_is_absolute(s@)),
{
    match s.parse::<http::Uri>() {
        Err(_) => UriClass::Invalid,
        Ok(uri) => match uri.scheme() {
            Some(_) => UriClass::Absolute,
            None => UriClass::Relative,
        },
    }
}

/// What validating a command line must yield, clause by clause: the single
/// usage word asks for help; anything but two arguments is rejected; then the
/// repeat count must be a numeral between 1 and 10 and the target an
/// absolute URI. The checks run in this order, so the first violated rule
/// names the error.
pub open spec fn parse_result_spec(
    args: Seq<String>,
    r: Result<Option<Arguments>, ArgumentError>,
) -> bool {
    if args.len() == 1 && args[0]@ == "usage"@ {
        r == Ok::<Option<Arguments>, ArgumentError>(None)
    } else if args.len() != 2 {
        r == Err::<Option<Arguments>, ArgumentError>(ArgumentError::WrongArgumentCount)
    } else if !(is_numeral(bytes_of(args[0]@)) && numeral_value(bytes_of(args[0]@))
        <= usize::MAX) {
        r == Err::<Option<Arguments>, ArgumentError>(ArgumentError::NotANumber)
    } else if !valid_count(numeral_value(bytes_of(args[0]@))) {
        r == Err::<Option<Arguments>, ArgumentError>(ArgumentError::CountOutOfRange)
    } else if !uri_is_valid(args[1]@) {
        r == Err::<Option<Arguments>, ArgumentError>(ArgumentError::InvalidUri)
    } else if !uri_is_absolute(args[1]@) {
        r == Err::<Option<Arguments>, ArgumentError>(ArgumentError::NotAbsoluteUri)
    } else {
        r matches Ok(Some(a)) && a.number_of_requests == numeral_value(bytes_of(args[0]@))
            && a.uri@ == args[1]@
    }
}

/// Validates the command line (the arguments after the program name).
///
/// `Ok(Some(..))` carries the validated configuration, `Ok(None)` means the
/// usage text was asked for, and every `Err` names the first rule the input
/// broke — all exactly as `parse_result_spec` lays down. No request is
/// dispatched on a rejected input, because no configuration exists for it.
pub fn parse_input_arguments(args: &Vec<String>) -> (r: Result<
    Option<Arguments>,
    ArgumentError,
>)
    ensures
        parse_result_spec(args@, r),
{
    let usage = "usage".to_owned();
    if args.len() == 1 && args[0] == usage {
        return Ok(None);
    }
    if args.len() != 2 {
        return Err(ArgumentError::WrongArgumentCount);
    }
    let count = match parse_count(args[0].as_str()) {
        Some(v) => v,
        None => {
            return Err(ArgumentError::NotANumber);
        },
    };
    if count < 1 || count > 10 {
        return Err(ArgumentError::CountOutOfRange);
    }
    match classify_uri(&args[1]) {
        UriClass::Invalid => Err(ArgumentError::InvalidUri),
        UriClass::Relative => Err(ArgumentError::NotAbsoluteUri),
        UriClass::Absolute => Ok(
            Some(Arguments { number_of_requests: count, uri: args[1].clone() }),
        ),
    }
}

} // verus!

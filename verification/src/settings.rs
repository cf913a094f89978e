//! The settings of the service, resolved from the values that the
//! environment gives, with a default for each that it does not give.

use crate::text::chars_of;
use vstd::prelude::*;
use vstd::string::StringExecFns;

verus! {

/// Where the service listens when nothing else is asked for.
pub const DEFAULT_BIND_ADDR: &'static str = "127.0.0.1:9412";

/// How long a script lives after its last use, in milliseconds: a day.
pub const DEFAULT_EXPIRATION_MILLIS: u64 = 86_400_000;

/// How long a call may take, in milliseconds.
pub const DEFAULT_COMPLETION_MILLIS: u64 = 10_000;

/// The number of workers that stands for "as many as the machine has
/// processors".
pub const AUTODETECT_POOL_SIZE: usize = 0;

/// A decimal digit.
pub open spec fn is_digit(c: char) -> bool {
    '0' <= c && c <= '9'
}

/// The number that the digits stand for, read in base ten.
pub open spec fn decimal_value(digits: Seq<char>) -> nat
    decreases digits.len(),
{
    if digits.len() == 0 {
        0
    } else {
        10 * decimal_value(digits.drop_last()) + (digits.last() as nat - '0' as nat) as nat
    }
}

/// The digits of a number's text: the text without the `+` that may lead it.
pub open spec fn digits_of(text: Seq<char>) -> Seq<char> {
    if text.len() > 0 && text[0] == '+' {
        text.drop_first()
    } else {
        text
    }
}

/// The number that `text` is the decimal text of, if it is one of at most
/// `max`: one or more digits, with nothing around them but a `+` in front.
pub open spec fn parsed_number(text: Seq<char>, max: nat) -> Option<nat> {
    let digits = digits_of(text);
    if digits.len() > 0 && (forall|i: int| 0 <= i < digits.len() ==> is_digit(#[trigger] digits[i]))
        && decimal_value(digits) <= max {
        Some(decimal_value(digits))
    } else {
        None
    }
}

proof fn lemma_decimal_value_grows(digits: Seq<char>, n: int)
    requires
        0 <= n <= digits.len(),
        forall|i: int| 0 <= i < digits.len() ==> is_digit(#[trigger] digits[i]),
    ensures
        decimal_value(digits.take(n)) <= decimal_value(digits),
    decreases digits.len() - n,
{
    if n < digits.len() {
        lemma_decimal_value_grows(digits, n + 1);
        let longer = digits.take(n + 1);
        assert(longer.drop_last() =~= digits.take(n));
        assert(is_digit(digits[n]));
        assert(longer.last() == digits[n]);
    } else {
        assert(digits.take(n) =~= digits);
    }
}

/// Why a text is not the decimal text of a number.
#[derive(Clone, Copy, Debug, PartialEq, Eq, Structural)]
pub enum NumberError {
    /// The text is empty.
    Empty,
    /// The text holds something that is no digit, or nothing but a sign.
    InvalidDigit,
    /// The digits stand for more than the largest number allowed.
    TooLarge,
}

/// A failure that has a message to report it with.
pub trait Failure {
    /// The message of the failure.
    spec fn message_text(&self) -> Seq<char>;

    /// The message of the failure.
    fn message(&self) -> (text: String)
        ensures
            text@ == self.message_text(),
    ;
}

impl Failure for NumberError {
    open spec fn message_text(&self) -> Seq<char> {
        match self {
            NumberError::Empty => "cannot parse integer from empty string"@,
            NumberError::InvalidDigit => "invalid digit found in string"@,
            NumberError::TooLarge => "number too large to fit in target type"@,
        }
    }

    fn message(&self) -> (text: String) {
        match self {
            NumberError::Empty => String::from_str("cannot parse integer from empty string"),
            NumberError::InvalidDigit => String::from_str("invalid digit found in string"),
            NumberError::TooLarge => String::from_str("number too large to fit in target type"),
        }
    }
}

/// The first failure that reading `digits` from the left meets at position
/// `i` or after it: a character that is no digit, or a digit with which the
/// number read so far exceeds `max`.
pub open spec fn first_failure(digits: Seq<char>, max: nat, i: nat) -> Option<NumberError>
    decreases digits.len() - i,
{
    if i >= digits.len() {
        None
    } else if !is_digit(digits[i as int]) {
        Some(NumberError::InvalidDigit)
    } else if decimal_value(digits.take(i as int + 1)) > max {
        Some(NumberError::TooLarge)
    } else {
        first_failure(digits, max, i + 1)
    }
}

/// Why `text` is not the decimal text of a number of at most `max`, if it is
/// not: it is empty, it is nothing but a sign, or reading its digits from
/// the left meets a failure, of which the first counts.
pub open spec fn number_failure(text: Seq<char>, max: nat) -> Option<NumberError> {
    if text.len() == 0 {
        Some(NumberError::Empty)
    } else if digits_of(text).len() == 0 {
        Some(NumberError::InvalidDigit)
    } else {
        first_failure(digits_of(text), max, 0)
    }
}

proof fn lemma_no_failure_from(digits: Seq<char>, max: nat, i: nat)
    requires
        i <= digits.len(),
        forall|j: int| 0 <= j < i ==> is_digit(#[trigger] digits[j]),
        decimal_value(digits.take(i as int)) <= max,
    ensures
        first_failure(digits, max, i) is None <==> (forall|j: int|
            0 <= j < digits.len() ==> is_digit(#[trigger] digits[j])) && decimal_value(digits)
            <= max,
    decreases digits.len() - i,
{
    if i < digits.len() {
        if !is_digit(digits[i as int]) {
        } else if decimal_value(digits.take(i as int + 1)) > max {
            if forall|j: int| 0 <= j < digits.len() ==> is_digit(#[trigger] digits[j]) {
                lemma_decimal_value_grows(digits, i as int + 1);
            }
        } else {
            assert forall|j: int| 0 <= j < i + 1 implies is_digit(#[trigger] digits[j]) by {
                if j == i {
                    assert(is_digit(digits[i as int]));
                }
            }
            lemma_no_failure_from(digits, max, i + 1);
        }
    } else {
        assert(digits.take(i as int) =~= digits);
    }
}

/// A text reads as a number exactly when reading it meets no failure.
pub proof fn lemma_number_reads_or_fails(text: Seq<char>, max: nat)
    ensures
        parsed_number(text, max) is Some <==> number_failure(text, max) is None,
{
    let digits = digits_of(text);
    if text.len() > 0 && digits.len() > 0 {
        assert(digits.take(0).len() == 0);
        lemma_no_failure_from(digits, max, 0);
    }
}

/// Reads a number of at most `max` from its decimal text, from the left;
/// the first failure that is met is the failure of the reading.
pub fn parse_number(text: &str, max: u64) -> (number: Result<u64, NumberError>)
    ensures
        match number {
            Ok(n) => parsed_number(text@, max as nat) == Some(n as nat) && number_failure(
                text@,
                max as nat,
            ) is None,
            Err(e) => number_failure(text@, max as nat) == Some(e) && parsed_number(
                text@,
                max as nat,
            ) is None,
        },
{
    let chars = chars_of(text);
    if chars.len() == 0 {
        return Err(NumberError::Empty);
    }
    let start: usize = if chars[0] == '+' {
        1
    } else {
        0
    };
    let ghost digits = digits_of(text@);
    assert(digits =~= chars@.skip(start as int));
    if chars.len() == start {
        return Err(NumberError::InvalidDigit);
    }
    proof {
        lemma_number_reads_or_fails(text@, max as nat);
    }
    let mut value: u64 = 0;
    let mut i: usize = start;
    while i < chars.len()
        invariant
            start <= i <= chars.len(),
            text@.len() > 0,
            digits.len() > 0,
            digits == chars@.skip(start as int),
            digits == digits_of(text@),
            forall|j: int| 0 <= j < i - start ==> is_digit(#[trigger] digits[j]),
            value == decimal_value(digits.take(i - start)),
            value <= max,
            first_failure(digits, max as nat, 0) == first_failure(
                digits,
                max as nat,
                (i - start) as nat,
            ),
            parsed_number(text@, max as nat) is Some <==> number_failure(text@, max as nat)
                is None,
        decreases chars.len() - i,
    {
        let c = chars[i];
        assert(digits[i - start] == c);
        if !('0' <= c && c <= '9') {
            assert(!is_digit(digits[i - start]));
            return Err(NumberError::InvalidDigit);
        }
        let d: u64 = (c as u32 - '0' as u32) as u64;
        proof {
            let longer = digits.take(i - start + 1);
            assert(longer.drop_last() =~= digits.take(i - start));
            assert(longer.last() == c);
            assert(decimal_value(longer) == 10 * value + d);
        }
        if d > max || value > (max - d) / 10 {
            return Err(NumberError::TooLarge);
        }
        value = value * 10 + d;
        i += 1;
    }
    assert(digits.take(i - start) =~= digits);
    Ok(value)
}

/// The number of processors that `num_cpus::get` reports: at least one.
#[verifier::external_body]
fn detected_processors() -> (n: usize)
    ensures
        n >= 1,
{
    num_cpus::get()
}

/// The number of workers to run: the configured one, or the number of
/// processors where the configured one asks for that.
pub open spec fn pool_size_of(configured: usize, processors: usize) -> usize {
    if configured == AUTODETECT_POOL_SIZE {
        processors
    } else {
        configured
    }
}

/// The number of workers to run for the configured number, on a machine
/// with `processors` processors.
pub fn pool_size_for(configured: usize, processors: usize) -> (size: usize)
    ensures
        size == pool_size_of(configured, processors),
{
    if configured == AUTODETECT_POOL_SIZE {
        processors
    } else {
        configured
    }
}

/// The setting that could not be read, with the cause: for a number the
/// failure of reading it, for an address the message of the address parser.
#[derive(Clone, Debug, PartialEq, Eq)]
pub enum SettingsError {
    BindAddr(String),
    ExpirationTime(NumberError),
    ThreadPoolSize(NumberError),
    CompletionTime(NumberError),
    TlsBindAddr(String),
}

/// A failure to resolve the settings as a value, its texts as sequences of
/// characters.
pub ghost enum SettingsFailure {
    BindAddr(Seq<char>),
    ExpirationTime(NumberError),
    ThreadPoolSize(NumberError),
    CompletionTime(NumberError),
    TlsBindAddr(Seq<char>),
}

impl View for SettingsError {
    type V = SettingsFailure;

    open spec fn view(&self) -> SettingsFailure {
        match self {
            SettingsError::BindAddr(message) => SettingsFailure::BindAddr(message@),
            SettingsError::ExpirationTime(cause) => SettingsFailure::ExpirationTime(*cause),
            SettingsError::ThreadPoolSize(cause) => SettingsFailure::ThreadPoolSize(*cause),
            SettingsError::CompletionTime(cause) => SettingsFailure::CompletionTime(*cause),
            SettingsError::TlsBindAddr(message) => SettingsFailure::TlsBindAddr(message@),
        }
    }
}

impl SettingsFailure {
    /// The message of the failure: the message of its cause.
    pub open spec fn message_text(self) -> Seq<char> {
        match self {
            SettingsFailure::BindAddr(message) => message,
            SettingsFailure::ExpirationTime(cause) => cause.message_text(),
            SettingsFailure::ThreadPoolSize(cause) => cause.message_text(),
            SettingsFailure::CompletionTime(cause) => cause.message_text(),
            SettingsFailure::TlsBindAddr(message) => message,
        }
    }
}

impl Failure for SettingsError {
    open spec fn message_text(&self) -> Seq<char> {
        self@.message_text()
    }

    fn message(&self) -> (text: String) {
        match self {
            SettingsError::BindAddr(message) => message.clone(),
            SettingsError::ExpirationTime(cause) => cause.message(),
            SettingsError::ThreadPoolSize(cause) => cause.message(),
            SettingsError::CompletionTime(cause) => cause.message(),
            SettingsError::TlsBindAddr(message) => message.clone(),
        }
    }
}

/// What a result carries as the message of an I/O error: the program
/// reports a failure as an I/O error of the kind `Other` with the failure's
/// message. A result that did not fail is kept.
pub open spec fn io_error_of<T, E: Failure>(result: Result<T, E>) -> Result<T, Seq<char>> {
    match result {
        Ok(value) => Ok(value),
        Err(e) => Err(e.message_text()),
    }
}

/// Keeps what `result` holds and turns its failure into the message of the
/// I/O error that reports it.
pub fn to_io_error<T, E: Failure>(result: Result<T, E>) -> (converted: Result<T, String>)
    ensures
        match converted {
            Ok(value) => io_error_of(result) == Ok::<T, Seq<char>>(value),
            Err(message) => io_error_of(result) == Err::<T, Seq<char>>(message@),
        },
{
    match result {
        Ok(value) => Ok(value),
        Err(e) => Err(e.message()),
    }
}

/// Which servers run.
#[derive(Clone, Copy, Debug, PartialEq, Eq, Structural)]
pub enum ServePlan {
    /// HTTP on the bind address.
    Http,
    /// HTTPS on the bind address.
    Https,
    /// HTTP on the bind address and HTTPS on the TLS bind address.
    HttpAndHttps,
}

/// The settings of the service. The addresses and paths are kept as the text
/// that was given.
#[derive(Debug)]
pub struct Settings {
    pub bind_addr: String,
    pub script_definition_expiration_millis: u64,
    pub script_execution_completion_millis: u64,
    pub script_execution_thread_pool_size: usize,
    pub tls_bind_addr: Option<String>,
    pub tls_public_certificate_path: Option<String>,
    pub tls_private_key_path: Option<String>,
}

/// A value of the environment as a sequence of characters.
pub open spec fn given(value: Option<String>) -> Option<Seq<char>> {
    match value {
        Some(s) => Some(s@),
        None => None,
    }
}

/// The number that a setting has: what its text reads as, or the default
/// where no text is given; `None` where the text is no number up to `max`.
pub open spec fn number_setting(value: Option<Seq<char>>, default: nat, max: nat) -> Option<nat> {
    match value {
        Some(text) => parsed_number(text, max),
        None => Some(default),
    }
}

/// Why a setting has no number: the failure of reading its text, where a
/// text is given.
pub open spec fn number_setting_failure(value: Option<Seq<char>>, max: nat) -> Option<
    NumberError,
> {
    match value {
        Some(text) => number_failure(text, max),
        None => None,
    }
}

/// A path that is given and not empty.
pub open spec fn path_setting(value: Option<Seq<char>>) -> Option<Seq<char>> {
    match value {
        Some(text) if text.len() > 0 => Some(text),
        _ => None,
    }
}

/// The text of the bind address: the one given, or the default.
pub open spec fn bind_addr_setting(value: Option<Seq<char>>) -> Seq<char> {
    match value {
        Some(addr) => addr,
        None => DEFAULT_BIND_ADDR@,
    }
}

/// The values that the settings are resolved from, as sequences of
/// characters, and what the address parser says of the two addresses: for
/// each its message, where it refuses the address.
pub ghost struct Environment {
    pub bind_addr: Option<Seq<char>>,
    pub bind_addr_failure: Option<Seq<char>>,
    pub expiration_time: Option<Seq<char>>,
    pub thread_pool_size: Option<Seq<char>>,
    pub completion_time: Option<Seq<char>>,
    pub tls_bind_addr: Option<Seq<char>>,
    pub tls_bind_addr_failure: Option<Seq<char>>,
    pub tls_public_certificate_path: Option<Seq<char>>,
    pub tls_private_key_path: Option<Seq<char>>,
}

impl Environment {
    /// The first setting that cannot be read, if there is one, in the order
    /// bind address, expiration time, pool size, completion time, TLS bind
    /// address. A TLS bind address that is not given cannot fail, and the
    /// two paths never do.
    pub open spec fn failure(self) -> Option<SettingsFailure> {
        if let Some(message) = self.bind_addr_failure {
            Some(SettingsFailure::BindAddr(message))
        } else if let Some(cause) = number_setting_failure(
            self.expiration_time,
            u64::MAX as nat,
        ) {
            Some(SettingsFailure::ExpirationTime(cause))
        } else if let Some(cause) = number_setting_failure(
            self.thread_pool_size,
            usize::MAX as nat,
        ) {
            Some(SettingsFailure::ThreadPoolSize(cause))
        } else if let Some(cause) = number_setting_failure(
            self.completion_time,
            u64::MAX as nat,
        ) {
            Some(SettingsFailure::CompletionTime(cause))
        } else if self.tls_bind_addr is Some && self.tls_bind_addr_failure is Some {
            Some(SettingsFailure::TlsBindAddr(self.tls_bind_addr_failure->0))
        } else {
            None
        }
    }
}

impl Settings {
    /// Whether these are the settings that `env` asks for on a machine with
    /// `processors` processors.
    pub open spec fn resolves(self, env: Environment, processors: usize) -> bool {
        &&& self.bind_addr@ == bind_addr_setting(env.bind_addr)
        &&& Some(self.script_definition_expiration_millis as nat) == number_setting(
            env.expiration_time,
            DEFAULT_EXPIRATION_MILLIS as nat,
            u64::MAX as nat,
        )
        &&& Some(self.script_execution_completion_millis as nat) == number_setting(
            env.completion_time,
            DEFAULT_COMPLETION_MILLIS as nat,
            u64::MAX as nat,
        )
        &&& number_setting(env.thread_pool_size, AUTODETECT_POOL_SIZE as nat, usize::MAX as nat)
            matches Some(configured) && self.script_execution_thread_pool_size == pool_size_of(
            configured as usize,
            processors,
        )
        &&& given(self.tls_bind_addr) == env.tls_bind_addr
        &&& given(self.tls_public_certificate_path) == path_setting(
            env.tls_public_certificate_path,
        )
        &&& given(self.tls_private_key_path) == path_setting(env.tls_private_key_path)
    }

    /// Which servers these settings ask for.
    pub open spec fn plan(self) -> ServePlan {
        if self.tls_public_certificate_path is Some && self.tls_private_key_path is Some {
            if self.tls_bind_addr is Some {
                ServePlan::HttpAndHttps
            } else {
                ServePlan::Https
            }
        } else {
            ServePlan::Http
        }
    }

    /// Which servers to run: with a certificate and a key, HTTPS; on the TLS
    /// bind address beside HTTP where that address is given, and else in
    /// place of HTTP.
    pub fn serve_plan(&self) -> (plan: ServePlan)
        ensures
            plan == self.plan(),
    {
        if self.tls_public_certificate_path.is_some() && self.tls_private_key_path.is_some() {
            if self.tls_bind_addr.is_some() {
                ServePlan::HttpAndHttps
            } else {
                ServePlan::Https
            }
        } else {
            ServePlan::Http
        }
    }
}

fn number_or(value: &Option<String>, default: u64, max: u64) -> (number: Result<u64, NumberError>)
    requires
        default <= max,
    ensures
        match number {
            Ok(n) => number_setting(given(*value), default as nat, max as nat) == Some(n as nat)
                && number_setting_failure(given(*value), max as nat) is None,
            Err(e) => number_setting_failure(given(*value), max as nat) == Some(e),
        },
{
    match value {
        Some(text) => parse_number(text.as_str(), max),
        None => Ok(default),
    }
}

fn path_or_none(value: Option<String>) -> (path: Option<String>)
    ensures
        given(path) == path_setting(given(value)),
{
    match value {
        Some(text) => {
            if text.as_str().unicode_len() > 0 {
                Some(text)
            } else {
                None
            }
        },
        None => None,
    }
}

/// The text of the bind address, which the address parser is to be asked
/// about: the one given, or the default.
pub fn bind_addr_text(bind_addr: &Option<String>) -> (text: String)
    ensures
        text@ == bind_addr_setting(given(*bind_addr)),
{
    match bind_addr {
        Some(addr) => addr.clone(),
        None => String::from_str(DEFAULT_BIND_ADDR),
    }
}

/// Resolves the settings from the values given, for a machine with
/// `processors` processors. `bind_addr_failure` and `tls_bind_addr_failure`
/// hold the message of the address parser where it refuses the text of the
/// bind address or the TLS bind address. The first setting that cannot be
/// read, in the order bind address, expiration time, pool size, completion
/// time, TLS bind address, is the failure.
pub fn resolve_on(
    bind_addr: Option<String>,
    bind_addr_failure: Option<String>,
    expiration_time: Option<String>,
    thread_pool_size: Option<String>,
    completion_time: Option<String>,
    tls_bind_addr: Option<String>,
    tls_bind_addr_failure: Option<String>,
    tls_public_certificate_path: Option<String>,
    tls_private_key_path: Option<String>,
    processors: usize,
) -> (result: Result<Settings, SettingsError>)
    ensures
        ({
            let env = Environment {
                bind_addr: given(bind_addr),
                bind_addr_failure: given(bind_addr_failure),
                expiration_time: given(expiration_time),
                thread_pool_size: given(thread_pool_size),
                completion_time: given(completion_time),
                tls_bind_addr: given(tls_bind_addr),
                tls_bind_addr_failure: given(tls_bind_addr_failure),
                tls_public_certificate_path: given(tls_public_certificate_path),
                tls_private_key_path: given(tls_private_key_path),
            };
            match result {
                Ok(settings) => env.failure() is None && settings.resolves(env, processors),
                Err(e) => env.failure() == Some(e@),
            }
        }),
{
    if let Some(message) = bind_addr_failure {
        return Err(SettingsError::BindAddr(message));
    }
    let expiration = match number_or(&expiration_time, DEFAULT_EXPIRATION_MILLIS, u64::MAX) {
        Ok(n) => n,
        Err(cause) => { return Err(SettingsError::ExpirationTime(cause)); },
    };
    let configured = match number_or(&thread_pool_size, 0, usize::MAX as u64) {
        Ok(n) => n as usize,
        Err(cause) => { return Err(SettingsError::ThreadPoolSize(cause)); },
    };
    let completion = match number_or(&completion_time, DEFAULT_COMPLETION_MILLIS, u64::MAX) {
        Ok(n) => n,
        Err(cause) => { return Err(SettingsError::CompletionTime(cause)); },
    };
    if tls_bind_addr.is_some() {
        if let Some(message) = tls_bind_addr_failure {
            return Err(SettingsError::TlsBindAddr(message));
        }
    }
    let settings = Settings {
        bind_addr: bind_addr_text(&bind_addr),
        script_definition_expiration_millis: expiration,
        script_execution_completion_millis: completion,
        script_execution_thread_pool_size: pool_size_for(configured, processors),
        tls_bind_addr,
        tls_public_certificate_path: path_or_none(tls_public_certificate_path),
        tls_private_key_path: path_or_none(tls_private_key_path),
    };
    Ok(settings)
}

/// Resolves the settings from the values given, for this machine.
pub fn resolve(
    bind_addr: Option<String>,
    bind_addr_failure: Option<String>,
    expiration_time: Option<String>,
    thread_pool_size: Option<String>,
    completion_time: Option<String>,
    tls_bind_addr: Option<String>,
    tls_bind_addr_failure: Option<String>,
    tls_public_certificate_path: Option<String>,
    tls_private_key_path: Option<String>,
) -> (result: Result<Settings, SettingsError>)
    ensures
        ({
            let env = Environment {
                bind_addr: given(bind_addr),
                bind_addr_failure: given(bind_addr_failure),
                expiration_time: given(expiration_time),
                thread_pool_size: given(thread_pool_size),
                completion_time: given(completion_time),
                tls_bind_addr: given(tls_bind_addr),
                tls_bind_addr_failure: given(tls_bind_addr_failure),
                tls_public_certificate_path: given(tls_public_certificate_path),
                tls_private_key_path: given(tls_private_key_path),
            };
            match result {
                Ok(settings) => env.failure() is None && settings.script_execution_thread_pool_size
                    >= 1 && exists|processors: usize|
                    processors >= 1 && #[trigger] settings.resolves(env, processors),
                Err(e) => env.failure() == Some(e@),
            }
        }),
{
    let processors = detected_processors();
    let result = resolve_on(
        bind_addr,
        bind_addr_failure,
        expiration_time,
        thread_pool_size,
        completion_time,
        tls_bind_addr,
        tls_bind_addr_failure,
        tls_public_certificate_path,
        tls_private_key_path,
        processors,
    );
    result
}

} // verus!

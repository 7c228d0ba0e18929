use vstd::prelude::*;

use vstd::string::StringSliceAdditionalSpecFns;

use crate::concurrency::Concurrency;
use crate::config::TowerRequestConfig;
use crate::retries::JitterMode;

verus! {

/// Byte values the grammar treats specially.
pub const NL: u8 = 10;

pub const SP: u8 = 32;

pub const QUOTE: u8 = 34;

pub const EQ: u8 = 61;

/// Why a configuration text was rejected.
#[derive(Clone, Copy, Debug, PartialEq, Eq, Structural)]
pub enum ParseError {
    /// A line is not `key = value`.
    Syntax,
    /// The key names no known setting.
    UnknownKey,
    /// A count is negative, not a number, or too large.
    InvalidNumber,
    /// The concurrency value is zero or an unknown word.
    InvalidConcurrency,
    /// The jitter mode is an unknown word.
    InvalidMode,
}

/// The settings a line can assign.
#[derive(Clone, Copy, Debug, PartialEq, Eq, Structural)]
pub enum FieldKey {
    Concurrency,
    TimeoutSecs,
    RateLimitDurationSecs,
    RateLimitNum,
    RetryAttempts,
    RetryMaxDurationSecs,
    RetryInitialBackoffSecs,
    RetryJitterMode,
    AdaptiveInitialConcurrency,
    AdaptiveMaxConcurrencyLimit,
}

/// A parsed value: a count, a concurrency choice, or a jitter mode.
#[derive(Clone, Copy, Debug, PartialEq, Eq, Structural)]
pub enum FieldValue {
    Num(u64),
    Conc(Concurrency),
    Jitter(JitterMode),
}

/// What one line of configuration text means.
#[derive(Clone, Copy, Debug, PartialEq, Eq, Structural)]
pub enum LineView {
    /// Nothing but spaces.
    Blank,
    /// An assignment of one setting.
    Stmt(FieldKey, FieldValue),
    /// A rejected line.
    Bad(ParseError),
}

/// The bytes of an ASCII key or word, as the spelling the grammar
/// compares against.
pub open spec fn str_bytes(s: &str) -> Seq<u8> {
    Seq::new(s@.len(), |i: int| s@[i] as u8)
}

/// The text cut at every newline. Every text is at least one line;
/// a trailing newline yields a final empty line.
pub open spec fn split_lines(s: Seq<u8>) -> Seq<Seq<u8>>
    decreases s.len(),
{
    if s.len() == 0 {
        seq![Seq::<u8>::empty()]
    } else if s[0] == NL {
        seq![Seq::<u8>::empty()] + split_lines(s.skip(1))
    } else {
        let rest = split_lines(s.skip(1));
        seq![seq![s[0]] + rest[0]] + rest.skip(1)
    }
}

pub proof fn lemma_split_lines_nonempty(s: Seq<u8>)
    ensures
        split_lines(s).len() >= 1,
    decreases s.len(),
{
    if s.len() != 0 && s[0] != NL {
        lemma_split_lines_nonempty(s.skip(1));
    }
}

/// Leading spaces removed.
pub open spec fn trim_left(s: Seq<u8>) -> Seq<u8>
    decreases s.len(),
{
    if s.len() == 0 {
        s
    } else if s[0] == SP {
        trim_left(s.skip(1))
    } else {
        s
    }
}

/// Trailing spaces removed.
pub open spec fn trim_right(s: Seq<u8>) -> Seq<u8>
    decreases s.len(),
{
    if s.len() == 0 {
        s
    } else if s.last() == SP {
        trim_right(s.drop_last())
    } else {
        s
    }
}

/// Both ends trimmed.
pub open spec fn trim(s: Seq<u8>) -> Seq<u8> {
    trim_right(trim_left(s))
}

/// The first position of `b`, or -1 when it does not occur.
pub open spec fn find_first(s: Seq<u8>, b: u8) -> int
    decreases s.len(),
{
    if s.len() == 0 {
        -1
    } else if s[0] == b {
        0
    } else {
        let r = find_first(s.skip(1), b);
        if r == -1 {
            -1
        } else {
            r + 1
        }
    }
}

/// Where `find_first` lands: on the first occurrence if there is one.
pub proof fn lemma_find_first(s: Seq<u8>, b: u8)
    ensures
        find_first(s, b) == -1 ==> forall|j: int| 0 <= j < s.len() ==> s[j] != b,
        find_first(s, b) != -1 ==> 0 <= find_first(s, b) < s.len() && s[find_first(s, b)] == b
            && forall|j: int| 0 <= j < find_first(s, b) ==> s[j] != b,
    decreases s.len(),
{
    if s.len() != 0 && s[0] != b {
        lemma_find_first(s.skip(1), b);
        let r = find_first(s.skip(1), b);
        if r == -1 {
            assert forall|j: int| 0 <= j < s.len() implies s[j] != b by {
                if j > 0 {
                    assert(s.skip(1)[j - 1] == s[j]);
                }
            }
        } else {
            assert(s.skip(1)[r] == s[r + 1]);
            assert forall|j: int| 0 <= j < r + 1 implies s[j] != b by {
                if j > 0 {
                    assert(s.skip(1)[j - 1] == s[j]);
                }
            }
        }
    }
}

pub open spec fn is_digit(c: u8) -> bool {
    48 <= c <= 57
}

pub open spec fn all_digits(s: Seq<u8>) -> bool {
    forall|j: int| 0 <= j < s.len() ==> is_digit(#[trigger] s[j])
}

/// The number a digit string denotes.
pub open spec fn digits_val(s: Seq<u8>) -> int
    decreases s.len(),
{
    if s.len() == 0 {
        0
    } else {
        digits_val(s.drop_last()) * 10 + (s.last() - 48)
    }
}

/// What a count value means: a nonempty string of digits denoting at
/// most the largest representable count; anything else is refused.
pub open spec fn spec_parse_num(s: Seq<u8>) -> Option<u64> {
    if s.len() == 0 || !all_digits(s) || digits_val(s) > u64::MAX {
        None
    } else {
        Some(digits_val(s) as u64)
    }
}

/// A digit string denotes no less than any of its prefixes.
proof fn lemma_digits_val_prefix(s: Seq<u8>, i: int)
    requires
        0 <= i <= s.len(),
        all_digits(s),
    ensures
        digits_val(s.take(i)) <= digits_val(s),
        digits_val(s) >= 0,
    decreases s.len() - i,
{
    if i == s.len() {
        assert(s.take(i) =~= s);
        lemma_digits_val_nonneg(s);
    } else {
        lemma_digits_val_prefix(s, i + 1);
        assert(s.take(i + 1).drop_last() =~= s.take(i));
        assert(s.take(i + 1).last() == s[i]);
        lemma_digits_val_nonneg(s.take(i));
        assert(digits_val(s.take(i + 1)) == digits_val(s.take(i)) * 10 + (s[i] - 48));
        assert(digits_val(s.take(i)) * 10 >= digits_val(s.take(i))) by (nonlinear_arith)
            requires
                digits_val(s.take(i)) >= 0,
        ;
    }
}

proof fn lemma_digits_val_nonneg(s: Seq<u8>)
    requires
        all_digits(s),
    ensures
        digits_val(s) >= 0,
    decreases s.len(),
{
    if s.len() > 0 {
        assert(all_digits(s.drop_last())) by {
            assert(forall|j: int| 0 <= j < s.len() - 1 ==> s.drop_last()[j] == s[j]);
        }
        lemma_digits_val_nonneg(s.drop_last());
        assert(digits_val(s.drop_last()) * 10 >= 0) by (nonlinear_arith)
            requires
                digits_val(s.drop_last()) >= 0,
        ;
    }
}

/// Whether two byte strings hold the same bytes.
fn bytes_eq(a: &[u8], b: &[u8]) -> (r: bool)
    ensures
        r == (a@ == b@),
{
    if a.len() != b.len() {
        proof {
            assert(a@.len() != b@.len());
        }
        return false;
    }
    let n = a.len();
    let mut i: usize = 0;
    while i < n
        invariant
            0 <= i <= n,
            a@.len() == n,
            b@.len() == n,
            forall|j: int| 0 <= j < i ==> a@[j] == b@[j],
        decreases n - i,
    {
        if a[i] != b[i] {
            return false;
        }
        i = i + 1;
    }
    proof {
        assert(a@ =~= b@);
    }
    true
}

/// Read a count: a nonempty string of digits denoting at most the
/// largest representable count.
fn parse_num(s: &[u8]) -> (r: Option<u64>)
    ensures
        r == spec_parse_num(s@),
{
    let n = s.len();
    if n == 0 {
        return None;
    }
    let mut acc: u64 = 0;
    let mut i: usize = 0;
    while i < n
        invariant
            0 <= i <= n,
            s@.len() == n,
            all_digits(s@.take(i as int)),
            acc == digits_val(s@.take(i as int)),
        decreases n - i,
    {
        let c = s[i];
        if c < 48 || c > 57 {
            proof {
                assert(!is_digit(s@[i as int]));
            }
            return None;
        }
        let d = (c - 48) as u64;
        proof {
            assert(s@.take(i + 1).drop_last() =~= s@.take(i as int));
            assert(s@.take(i + 1).last() == s@[i as int]);
            assert(all_digits(s@.take(i + 1))) by {
                assert(forall|j: int|
                    0 <= j < i + 1 ==> s@.take(i + 1)[j] == #[trigger] s@.take(i as int).push(
                        s@[i as int],
                    )[j]);
            }
        }
        if acc > (u64::MAX - d) / 10 {
            proof {
                let t = s@.take(i + 1);
                assert(digits_val(t) == acc * 10 + d);
                assert(acc * 10 + d > u64::MAX) by (nonlinear_arith)
                    requires
                        acc > (u64::MAX - d) / 10,
                        0 <= d <= 9,
                        acc >= 0,
                ;
                if all_digits(s@) {
                    lemma_digits_val_prefix(s@, i + 1);
                }
            }
            return None;
        }
        acc = acc * 10 + d;
        i = i + 1;
    }
    proof {
        assert(s@.take(n as int) =~= s@);
    }
    Some(acc)
}

/// The spelling of each setting's key.
pub open spec fn key_spelling(k: FieldKey) -> Seq<u8> {
    match k {
        FieldKey::Concurrency => str_bytes("concurrency"),
        FieldKey::TimeoutSecs => str_bytes("timeout_secs"),
        FieldKey::RateLimitDurationSecs => str_bytes("rate_limit_duration_secs"),
        FieldKey::RateLimitNum => str_bytes("rate_limit_num"),
        FieldKey::RetryAttempts => str_bytes("retry_attempts"),
        FieldKey::RetryMaxDurationSecs => str_bytes("retry_max_duration_secs"),
        FieldKey::RetryInitialBackoffSecs => str_bytes("retry_initial_backoff_secs"),
        FieldKey::RetryJitterMode => str_bytes("retry_jitter_mode"),
        FieldKey::AdaptiveInitialConcurrency => str_bytes("adaptive_concurrency.initial_concurrency"),
        FieldKey::AdaptiveMaxConcurrencyLimit => str_bytes(
            "adaptive_concurrency.max_concurrency_limit",
        ),
    }
}

/// Which setting a key names, if any.
pub open spec fn key_of(kp: Seq<u8>) -> Option<FieldKey> {
    if kp == key_spelling(FieldKey::Concurrency) {
        Some(FieldKey::Concurrency)
    } else if kp == key_spelling(FieldKey::TimeoutSecs) {
        Some(FieldKey::TimeoutSecs)
    } else if kp == key_spelling(FieldKey::RateLimitDurationSecs) {
        Some(FieldKey::RateLimitDurationSecs)
    } else if kp == key_spelling(FieldKey::RateLimitNum) {
        Some(FieldKey::RateLimitNum)
    } else if kp == key_spelling(FieldKey::RetryAttempts) {
        Some(FieldKey::RetryAttempts)
    } else if kp == key_spelling(FieldKey::RetryMaxDurationSecs) {
        Some(FieldKey::RetryMaxDurationSecs)
    } else if kp == key_spelling(FieldKey::RetryInitialBackoffSecs) {
        Some(FieldKey::RetryInitialBackoffSecs)
    } else if kp == key_spelling(FieldKey::RetryJitterMode) {
        Some(FieldKey::RetryJitterMode)
    } else if kp == key_spelling(FieldKey::AdaptiveInitialConcurrency) {
        Some(FieldKey::AdaptiveInitialConcurrency)
    } else if kp == key_spelling(FieldKey::AdaptiveMaxConcurrencyLimit) {
        Some(FieldKey::AdaptiveMaxConcurrencyLimit)
    } else {
        None
    }
}

/// Whether a parsed count fits the setting the key names: retry
/// attempts and the adaptive bounds are machine-sized.
pub open spec fn key_takes_usize(k: FieldKey) -> bool {
    match k {
        FieldKey::RetryAttempts => true,
        FieldKey::AdaptiveInitialConcurrency => true,
        FieldKey::AdaptiveMaxConcurrencyLimit => true,
        _ => false,
    }
}

/// What a value means for the setting its key names. Counts must be
/// non-negative numbers in range; concurrency also takes the words
/// `"adaptive"` and `"none"` and refuses zero; the jitter mode takes
/// the words `"none"` and `"full"`.
pub open spec fn spec_parse_value(k: FieldKey, v: Seq<u8>) -> Result<FieldValue, ParseError> {
    match k {
        FieldKey::Concurrency => {
            if v == str_bytes("\"adaptive\"") {
                Ok(FieldValue::Conc(Concurrency::Adaptive))
            } else if v == str_bytes("\"none\"") {
                Ok(FieldValue::Conc(Concurrency::Unlimited))
            } else if v.len() >= 1 && v[0] == QUOTE {
                Err(ParseError::InvalidConcurrency)
            } else {
                match spec_parse_num(v) {
                    Some(n) => if n == 0 {
                        Err(ParseError::InvalidConcurrency)
                    } else if n > usize::MAX {
                        Err(ParseError::InvalidNumber)
                    } else {
                        Ok(FieldValue::Conc(Concurrency::Fixed(n as usize)))
                    },
                    None => Err(ParseError::InvalidNumber),
                }
            }
        },
        FieldKey::RetryJitterMode => {
            if v == str_bytes("\"none\"") {
                Ok(FieldValue::Jitter(JitterMode::Off))
            } else if v == str_bytes("\"full\"") {
                Ok(FieldValue::Jitter(JitterMode::Full))
            } else {
                Err(ParseError::InvalidMode)
            }
        },
        _ => {
            match spec_parse_num(v) {
                Some(n) => if key_takes_usize(k) && n > usize::MAX {
                    Err(ParseError::InvalidNumber)
                } else {
                    Ok(FieldValue::Num(n))
                },
                None => Err(ParseError::InvalidNumber),
            }
        },
    }
}

/// The configuration with one parsed assignment applied.
pub open spec fn set_field(
    c: TowerRequestConfig,
    k: FieldKey,
    v: FieldValue,
) -> TowerRequestConfig {
    match k {
        FieldKey::Concurrency => match v {
            FieldValue::Conc(x) => TowerRequestConfig { concurrency: Some(x), ..c },
            _ => c,
        },
        FieldKey::TimeoutSecs => match v {
            FieldValue::Num(n) => TowerRequestConfig { timeout_secs: Some(n), ..c },
            _ => c,
        },
        FieldKey::RateLimitDurationSecs => match v {
            FieldValue::Num(n) => TowerRequestConfig { rate_limit_duration_secs: Some(n), ..c },
            _ => c,
        },
        FieldKey::RateLimitNum => match v {
            FieldValue::Num(n) => TowerRequestConfig { rate_limit_num: Some(n), ..c },
            _ => c,
        },
        FieldKey::RetryAttempts => match v {
            FieldValue::Num(n) => TowerRequestConfig {
                retry_attempts: Some(n as usize),
                ..c
            },
            _ => c,
        },
        FieldKey::RetryMaxDurationSecs => match v {
            FieldValue::Num(n) => TowerRequestConfig { retry_max_duration_secs: Some(n), ..c },
            _ => c,
        },
        FieldKey::RetryInitialBackoffSecs => match v {
            FieldValue::Num(n) => TowerRequestConfig { retry_initial_backoff_secs: Some(n), ..c },
            _ => c,
        },
        FieldKey::RetryJitterMode => match v {
            FieldValue::Jitter(j) => TowerRequestConfig { retry_jitter_mode: j, ..c },
            _ => c,
        },
        FieldKey::AdaptiveInitialConcurrency => match v {
            FieldValue::Num(n) => TowerRequestConfig {
                adaptive_concurrency: crate::concurrency::AdaptiveConcurrencySettings {
                    initial_concurrency: n as usize,
                    ..c.adaptive_concurrency
                },
                ..c
            },
            _ => c,
        },
        FieldKey::AdaptiveMaxConcurrencyLimit => match v {
            FieldValue::Num(n) => TowerRequestConfig {
                adaptive_concurrency: crate::concurrency::AdaptiveConcurrencySettings {
                    max_concurrency_limit: n as usize,
                    ..c.adaptive_concurrency
                },
                ..c
            },
            _ => c,
        },
    }
}

/// What one line means: nothing, an assignment, or a rejection.
pub open spec fn parse_line_spec(l: Seq<u8>) -> LineView {
    let t = trim(l);
    if t.len() == 0 {
        LineView::Blank
    } else {
        let e = find_first(t, EQ);
        if e == -1 {
            LineView::Bad(ParseError::Syntax)
        } else {
            let kp = trim_right(t.take(e));
            let vp = trim_left(t.skip(e + 1));
            if kp.len() == 0 {
                LineView::Bad(ParseError::Syntax)
            } else {
                match key_of(kp) {
                    None => LineView::Bad(ParseError::UnknownKey),
                    Some(k) => match spec_parse_value(k, vp) {
                        Ok(v) => LineView::Stmt(k, v),
                        Err(err) => LineView::Bad(err),
                    },
                }
            }
        }
    }
}

/// The meaning of a sequence of lines: assignments applied in order to
/// the accumulated configuration, blanks skipped, the first rejection
/// final.
pub open spec fn interp_lines(lines: Seq<Seq<u8>>, acc: TowerRequestConfig) -> Result<
    TowerRequestConfig,
    ParseError,
>
    decreases lines.len(),
{
    if lines.len() == 0 {
        Ok(acc)
    } else {
        match parse_line_spec(lines[0]) {
            LineView::Blank => interp_lines(lines.skip(1), acc),
            LineView::Stmt(k, v) => interp_lines(lines.skip(1), set_field(acc, k, v)),
            LineView::Bad(e) => Err(e),
        }
    }
}

/// What a configuration text means: every assignment applied, in
/// order, to the configuration with nothing set.
pub open spec fn parse_spec(s: Seq<u8>) -> Result<TowerRequestConfig, ParseError> {
    interp_lines(split_lines(s), crate::config::empty_config())
}

proof fn lemma_trim_left_at(s: Seq<u8>, k: int)
    requires
        0 <= k <= s.len(),
        forall|j: int| 0 <= j < k ==> s[j] == SP,
        k == s.len() || s[k] != SP,
    ensures
        trim_left(s) == s.skip(k),
    decreases k,
{
    if k == 0 {
        assert(s.skip(0) =~= s);
    } else {
        assert(s[0] == SP);
        lemma_trim_left_at(s.skip(1), k - 1);
        assert(s.skip(1).skip(k - 1) =~= s.skip(k));
    }
}

proof fn lemma_trim_right_at(s: Seq<u8>, k: int)
    requires
        0 <= k <= s.len(),
        forall|j: int| k <= j < s.len() ==> s[j] == SP,
        k == 0 || s[k - 1] != SP,
    ensures
        trim_right(s) == s.take(k),
    decreases s.len() - k,
{
    if k == s.len() {
        assert(s.take(k) =~= s);
        if s.len() > 0 {
            assert(s.last() != SP);
        }
    } else {
        assert(s.last() == SP);
        lemma_trim_right_at(s.drop_last(), k);
        assert(s.drop_last().take(k) =~= s.take(k));
    }
}

/// Splitting a text whose first newline stands at `j`.
proof fn lemma_split_at_nl(s: Seq<u8>, j: int)
    requires
        0 <= j < s.len(),
        s[j] == NL,
        forall|i: int| 0 <= i < j ==> s[i] != NL,
    ensures
        split_lines(s) == seq![s.take(j)] + split_lines(s.skip(j + 1)),
    decreases j,
{
    if j == 0 {
        assert(s.take(0) =~= Seq::<u8>::empty());
        assert(s[0] == NL);
    } else {
        assert(s[0] != NL);
        assert(s.len() > 0);
        lemma_split_at_nl(s.skip(1), j - 1);
        lemma_split_lines_nonempty(s.skip(1).skip(j));
        let rest = split_lines(s.skip(1));
        assert(s.skip(1)[j - 1] == s[j]);
        assert(forall|i: int| 0 <= i < j - 1 ==> s.skip(1)[i] == s[i + 1]);
        assert(rest == seq![s.skip(1).take(j - 1)] + split_lines(s.skip(1).skip(j)));
        assert(rest[0] == s.skip(1).take(j - 1));
        assert(seq![s[0]] + s.skip(1).take(j - 1) =~= s.take(j));
        assert(rest.skip(1) =~= split_lines(s.skip(1).skip(j)));
        assert(s.skip(1).skip(j) =~= s.skip(j + 1));
        assert(split_lines(s) =~= seq![s.take(j)] + split_lines(s.skip(j + 1)));
    }
}

/// A text without newlines is one line.
proof fn lemma_split_no_nl(s: Seq<u8>)
    requires
        forall|i: int| 0 <= i < s.len() ==> s[i] != NL,
    ensures
        split_lines(s) == seq![s],
    decreases s.len(),
{
    if s.len() > 0 {
        assert(forall|i: int| 0 <= i < s.len() - 1 ==> s.skip(1)[i] == s[i + 1]);
        lemma_split_no_nl(s.skip(1));
        assert(seq![s[0]] + s.skip(1) =~= s);
        assert(split_lines(s) =~~= seq![s]);
    } else {
        assert(s =~= Seq::<u8>::empty());
        assert(split_lines(s) =~~= seq![s]);
    }
}

/// The key spellings, as byte strings for the matcher.
fn match_key(kp: &[u8]) -> (r: Option<FieldKey>)
    ensures
        r == key_of(kp@),
{
    proof {
        lemma_key_spellings();
    }
    if bytes_eq(kp, "concurrency".as_bytes()) {
        Some(FieldKey::Concurrency)
    } else if bytes_eq(kp, "timeout_secs".as_bytes()) {
        Some(FieldKey::TimeoutSecs)
    } else if bytes_eq(kp, "rate_limit_duration_secs".as_bytes()) {
        Some(FieldKey::RateLimitDurationSecs)
    } else if bytes_eq(kp, "rate_limit_num".as_bytes()) {
        Some(FieldKey::RateLimitNum)
    } else if bytes_eq(kp, "retry_attempts".as_bytes()) {
        Some(FieldKey::RetryAttempts)
    } else if bytes_eq(kp, "retry_max_duration_secs".as_bytes()) {
        Some(FieldKey::RetryMaxDurationSecs)
    } else if bytes_eq(kp, "retry_initial_backoff_secs".as_bytes()) {
        Some(FieldKey::RetryInitialBackoffSecs)
    } else if bytes_eq(kp, "retry_jitter_mode".as_bytes()) {
        Some(FieldKey::RetryJitterMode)
    } else if bytes_eq(kp, "adaptive_concurrency.initial_concurrency".as_bytes()) {
        Some(FieldKey::AdaptiveInitialConcurrency)
    } else if bytes_eq(kp, "adaptive_concurrency.max_concurrency_limit".as_bytes()) {
        Some(FieldKey::AdaptiveMaxConcurrencyLimit)
    } else {
        None
    }
}

/// A string literal's bytes are its characters, one byte each.
proof fn lemma_str_bytes(s: &str)
    requires
        vstd::string::is_ascii(s),
    ensures
        s.spec_bytes() == str_bytes(s),
{
    broadcast use vstd::string::is_ascii_spec_bytes;

    assert(s.spec_bytes() =~= str_bytes(s));
}

/// The spellings of the keys and quoted words, pinned down.
proof fn lemma_key_spellings()
    ensures
        "concurrency"@.len() == 11 && "concurrency".spec_bytes() == key_spelling(
            FieldKey::Concurrency,
        ),
        "timeout_secs".spec_bytes() == key_spelling(FieldKey::TimeoutSecs),
        "rate_limit_duration_secs".spec_bytes() == key_spelling(FieldKey::RateLimitDurationSecs),
        "rate_limit_num".spec_bytes() == key_spelling(FieldKey::RateLimitNum),
        "retry_attempts".spec_bytes() == key_spelling(FieldKey::RetryAttempts),
        "retry_max_duration_secs".spec_bytes() == key_spelling(FieldKey::RetryMaxDurationSecs),
        "retry_initial_backoff_secs".spec_bytes() == key_spelling(
            FieldKey::RetryInitialBackoffSecs,
        ),
        "retry_jitter_mode".spec_bytes() == key_spelling(FieldKey::RetryJitterMode),
        "adaptive_concurrency.initial_concurrency".spec_bytes() == key_spelling(
            FieldKey::AdaptiveInitialConcurrency,
        ),
        "adaptive_concurrency.max_concurrency_limit".spec_bytes() == key_spelling(
            FieldKey::AdaptiveMaxConcurrencyLimit,
        ),
        "\"adaptive\"".spec_bytes() == str_bytes("\"adaptive\""),
        "\"none\"".spec_bytes() == str_bytes("\"none\""),
        "\"full\"".spec_bytes() == str_bytes("\"full\""),
{
    reveal_strlit("concurrency");
    reveal_strlit("timeout_secs");
    reveal_strlit("rate_limit_duration_secs");
    reveal_strlit("rate_limit_num");
    reveal_strlit("retry_attempts");
    reveal_strlit("retry_max_duration_secs");
    reveal_strlit("retry_initial_backoff_secs");
    reveal_strlit("retry_jitter_mode");
    reveal_strlit("adaptive_concurrency.initial_concurrency");
    reveal_strlit("adaptive_concurrency.max_concurrency_limit");
    reveal_strlit("\"adaptive\"");
    reveal_strlit("\"none\"");
    reveal_strlit("\"full\"");
    lemma_str_bytes("concurrency");
    lemma_str_bytes("timeout_secs");
    lemma_str_bytes("rate_limit_duration_secs");
    lemma_str_bytes("rate_limit_num");
    lemma_str_bytes("retry_attempts");
    lemma_str_bytes("retry_max_duration_secs");
    lemma_str_bytes("retry_initial_backoff_secs");
    lemma_str_bytes("retry_jitter_mode");
    lemma_str_bytes("adaptive_concurrency.initial_concurrency");
    lemma_str_bytes("adaptive_concurrency.max_concurrency_limit");
    lemma_str_bytes("\"adaptive\"");
    lemma_str_bytes("\"none\"");
    lemma_str_bytes("\"full\"");
}

/// Read the value for the setting `k` names.
fn parse_value(k: FieldKey, vp: &[u8]) -> (r: Result<FieldValue, ParseError>)
    ensures
        r == spec_parse_value(k, vp@),
{
    proof {
        lemma_key_spellings();
    }
    match k {
        FieldKey::Concurrency => {
            if bytes_eq(vp, "\"adaptive\"".as_bytes()) {
                Ok(FieldValue::Conc(Concurrency::Adaptive))
            } else if bytes_eq(vp, "\"none\"".as_bytes()) {
                Ok(FieldValue::Conc(Concurrency::Unlimited))
            } else if vp.len() >= 1 && vp[0] == QUOTE {
                Err(ParseError::InvalidConcurrency)
            } else {
                match parse_num(vp) {
                    Some(n) => {
                        if n == 0 {
                            Err(ParseError::InvalidConcurrency)
                        } else if n > usize::MAX as u64 {
                            Err(ParseError::InvalidNumber)
                        } else {
                            Ok(FieldValue::Conc(Concurrency::Fixed(n as usize)))
                        }
                    },
                    None => Err(ParseError::InvalidNumber),
                }
            }
        },
        FieldKey::RetryJitterMode => {
            if bytes_eq(vp, "\"none\"".as_bytes()) {
                Ok(FieldValue::Jitter(JitterMode::Off))
            } else if bytes_eq(vp, "\"full\"".as_bytes()) {
                Ok(FieldValue::Jitter(JitterMode::Full))
            } else {
                Err(ParseError::InvalidMode)
            }
        },
        _ => {
            let takes_usize = match k {
                FieldKey::RetryAttempts => true,
                FieldKey::AdaptiveInitialConcurrency => true,
                FieldKey::AdaptiveMaxConcurrencyLimit => true,
                _ => false,
            };
            match parse_num(vp) {
                Some(n) => {
                    if takes_usize && n > usize::MAX as u64 {
                        Err(ParseError::InvalidNumber)
                    } else {
                        Ok(FieldValue::Num(n))
                    }
                },
                None => Err(ParseError::InvalidNumber),
            }
        },
    }
}

/// Read one line.
fn parse_line(l: &[u8]) -> (r: LineView)
    ensures
        r == parse_line_spec(l@),
{
    let n = l.len();
    let mut lo: usize = 0;
    while lo < n && l[lo] == SP
        invariant
            0 <= lo <= n,
            n == l@.len(),
            forall|j: int| 0 <= j < lo ==> l@[j] == SP,
        decreases n - lo,
    {
        lo = lo + 1;
    }
    proof {
        lemma_trim_left_at(l@, lo as int);
    }
    let mut hi: usize = n;
    while hi > lo && l[hi - 1] == SP
        invariant
            lo <= hi <= n,
            n == l@.len(),
            forall|j: int| hi <= j < n ==> l@[j] == SP,
        decreases hi,
    {
        hi = hi - 1;
    }
    proof {
        lemma_trim_right_at(l@.skip(lo as int), hi - lo);
        assert(l@.skip(lo as int).take(hi - lo) =~= l@.subrange(lo as int, hi as int));
        assert(trim(l@) == l@.subrange(lo as int, hi as int));
    }
    let t = vstd::slice::slice_subrange(l, lo, hi);
    let tn = t.len();
    if tn == 0 {
        return LineView::Blank;
    }
    let mut e: usize = 0;
    while e < tn && t[e] != EQ
        invariant
            0 <= e <= tn,
            tn == t@.len(),
            forall|j: int| 0 <= j < e ==> t@[j] != EQ,
        decreases tn - e,
    {
        e = e + 1;
    }
    if e == tn {
        proof {
            lemma_find_first(t@, EQ);
            assert(find_first(t@, EQ) == -1) by {
                if find_first(t@, EQ) != -1 {
                    assert(t@[find_first(t@, EQ)] == EQ);
                }
            }
        }
        return LineView::Bad(ParseError::Syntax);
    }
    proof {
        lemma_find_first(t@, EQ);
        assert(find_first(t@, EQ) == e as int) by {
            let f = find_first(t@, EQ);
            if f == -1 {
                assert(t@[e as int] != EQ);
            } else {
                if f < e {
                    assert(t@[f] != EQ);
                }
                if f > e {
                    assert(t@[e as int] != EQ);
                }
            }
        }
    }
    let mut ke: usize = e;
    while ke > 0 && t[ke - 1] == SP
        invariant
            0 <= ke <= e,
            e < tn,
            tn == t@.len(),
            forall|j: int| ke <= j < e ==> t@[j] == SP,
        decreases ke,
    {
        ke = ke - 1;
    }
    proof {
        lemma_trim_right_at(t@.take(e as int), ke as int);
        assert(t@.take(e as int).take(ke as int) =~= t@.subrange(0, ke as int));
    }
    let mut vs: usize = e + 1;
    while vs < tn && t[vs] == SP
        invariant
            e + 1 <= vs <= tn,
            tn == t@.len(),
            forall|j: int| e + 1 <= j < vs ==> t@[j] == SP,
        decreases tn - vs,
    {
        vs = vs + 1;
    }
    proof {
        lemma_trim_left_at(t@.skip(e + 1), vs - (e + 1));
        assert(t@.skip(e + 1).skip(vs - (e + 1)) =~= t@.subrange(vs as int, tn as int));
    }
    if ke == 0 {
        return LineView::Bad(ParseError::Syntax);
    }
    let kp = vstd::slice::slice_subrange(t, 0, ke);
    let vp = vstd::slice::slice_subrange(t, vs, tn);
    match match_key(kp) {
        None => LineView::Bad(ParseError::UnknownKey),
        Some(k) => match parse_value(k, vp) {
            Ok(v) => LineView::Stmt(k, v),
            Err(err) => LineView::Bad(err),
        },
    }
}

impl TowerRequestConfig {
    /// Read a configuration text: `key = value` lines, keys at most
    /// once each applied in order, blank lines ignored.
    pub fn parse(s: &[u8]) -> (r: Result<TowerRequestConfig, ParseError>)
        ensures
            r == parse_spec(s@),
    {
        let n = s.len();
        let mut acc = TowerRequestConfig::empty();
        let mut pos: usize = 0;
        proof {
            assert(s@.skip(0) =~= s@);
        }
        loop
            invariant
                0 <= pos <= n,
                n == s@.len(),
                interp_lines(split_lines(s@), crate::config::empty_config()) == interp_lines(
                    split_lines(s@.skip(pos as int)),
                    acc,
                ),
            decreases n - pos,
        {
            let mut j: usize = pos;
            while j < n && s[j] != NL
                invariant
                    pos <= j <= n,
                    n == s@.len(),
                    forall|i: int| pos <= i < j ==> s@[i] != NL,
                decreases n - j,
            {
                j = j + 1;
            }
            let line = vstd::slice::slice_subrange(s, pos, j);
            let lv = parse_line(line);
            proof {
                let rest = s@.skip(pos as int);
                if j < n {
                    assert(rest[j - pos] == s@[j as int]);
                    assert(forall|i: int| 0 <= i < j - pos ==> rest[i] == s@[i + pos]);
                    lemma_split_at_nl(rest, j - pos);
                    assert(rest.take(j - pos) =~= line@);
                    assert(rest.skip(j - pos + 1) =~= s@.skip(j + 1));
                    lemma_split_lines_nonempty(s@.skip(j + 1));
                    assert(split_lines(rest)[0] == line@);
                    assert(split_lines(rest).skip(1) =~= split_lines(s@.skip(j + 1)));
                } else {
                    assert(forall|i: int| 0 <= i < rest.len() ==> rest[i] == s@[i + pos]);
                    lemma_split_no_nl(rest);
                    assert(rest =~= line@);
                    assert(split_lines(rest)[0] == line@);
                    assert(split_lines(rest).skip(1) =~= Seq::<Seq<u8>>::empty());
                }
            }
            match lv {
                LineView::Bad(err) => {
                    return Err(err);
                },
                LineView::Blank => (),
                LineView::Stmt(k, v) => {
                    acc = apply_field(acc, k, v);
                },
            }
            if j == n {
                proof {
                    assert(interp_lines(Seq::<Seq<u8>>::empty(), acc) == Ok::<
                        TowerRequestConfig,
                        ParseError,
                    >(acc));
                }
                return Ok(acc);
            }
            pos = j + 1;
        }
    }
}

/// The decimal spelling of a count.
pub open spec fn fmt_u64(n: int) -> Seq<u8>
    recommends
        n >= 0,
    decreases n,
{
    if n < 10 {
        seq![(48 + n) as u8]
    } else {
        fmt_u64(n / 10) + seq![(48 + n % 10) as u8]
    }
}

/// The decimal spelling of a count is digits denoting the count.
pub proof fn lemma_fmt_u64(n: int)
    requires
        0 <= n,
    ensures
        fmt_u64(n).len() >= 1,
        all_digits(fmt_u64(n)),
        digits_val(fmt_u64(n)) == n,
    decreases n,
{
    if n < 10 {
        assert(fmt_u64(n) =~= seq![(48 + n) as u8]);
        assert(seq![(48 + n) as u8].drop_last() =~= Seq::<u8>::empty());
        assert(seq![(48 + n) as u8].last() == (48 + n) as u8);
        assert(digits_val(fmt_u64(n)) == digits_val(Seq::<u8>::empty()) * 10 + n);
    } else {
        lemma_fmt_u64(n / 10);
        let a = fmt_u64(n / 10);
        let d = (48 + n % 10) as u8;
        assert((a + seq![d]).drop_last() =~= a);
        assert((a + seq![d]).last() == d);
        assert(digits_val(a + seq![d]) == digits_val(a) * 10 + (d - 48));
        assert(n / 10 * 10 + n % 10 == n) by (nonlinear_arith)
            requires
                n >= 10,
        ;
        assert(forall|j: int|
            0 <= j < (a + seq![d]).len() ==> is_digit(#[trigger] (a + seq![d])[j]));
    }
}

fn fmt_u64_exec(n: u64) -> (r: Vec<u8>)
    ensures
        r@ == fmt_u64(n as int),
    decreases n,
{
    if n < 10 {
        let mut v: Vec<u8> = Vec::new();
        v.push(48 + n as u8);
        proof {
            assert(v@ =~= fmt_u64(n as int));
        }
        v
    } else {
        let mut v = fmt_u64_exec(n / 10);
        v.push(48 + (n % 10) as u8);
        proof {
            assert(v@ =~= fmt_u64(n as int));
        }
        v
    }
}

/// The separator between a key and its value.
pub open spec fn sep_bytes() -> Seq<u8> {
    seq![SP, EQ, SP]
}

/// One emitted line, without its newline.
pub open spec fn stmt_line(k: FieldKey, v: Seq<u8>) -> Seq<u8> {
    key_spelling(k) + sep_bytes() + v
}

/// The emitted spelling of a concurrency choice.
pub open spec fn conc_bytes(c: Concurrency) -> Seq<u8> {
    match c {
        Concurrency::Adaptive => str_bytes("\"adaptive\""),
        Concurrency::Unlimited => str_bytes("\"none\""),
        Concurrency::Fixed(n) => fmt_u64(n as int),
    }
}

/// The emitted spelling of a jitter mode.
pub open spec fn jitter_bytes(j: JitterMode) -> Seq<u8> {
    match j {
        JitterMode::Off => str_bytes("\"none\""),
        JitterMode::Full => str_bytes("\"full\""),
    }
}

/// The line an optional count field emits: one statement when the
/// field is present, nothing when it is absent.
pub open spec fn opt_num_line(k: FieldKey, o: Option<u64>) -> Seq<Seq<u8>> {
    match o {
        Some(v) => seq![stmt_line(k, fmt_u64(v as int))],
        None => Seq::<Seq<u8>>::empty(),
    }
}

/// The line the concurrency field emits, if present.
pub open spec fn opt_conc_line(o: Option<Concurrency>) -> Seq<Seq<u8>> {
    match o {
        Some(v) => seq![stmt_line(FieldKey::Concurrency, conc_bytes(v))],
        None => Seq::<Seq<u8>>::empty(),
    }
}

/// The lines of the optional fields, in their fixed order.
pub open spec fn head_lines(c: TowerRequestConfig) -> Seq<Seq<u8>> {
    opt_conc_line(c.concurrency) + opt_num_line(FieldKey::TimeoutSecs, c.timeout_secs)
        + opt_num_line(FieldKey::RateLimitDurationSecs, c.rate_limit_duration_secs) + opt_num_line(
        FieldKey::RateLimitNum,
        c.rate_limit_num,
    ) + opt_num_line(
        FieldKey::RetryAttempts,
        match c.retry_attempts {
            Some(v) => Some(v as u64),
            None => None,
        },
    ) + opt_num_line(FieldKey::RetryMaxDurationSecs, c.retry_max_duration_secs) + opt_num_line(
        FieldKey::RetryInitialBackoffSecs,
        c.retry_initial_backoff_secs,
    )
}

/// The lines that are always emitted: the jitter mode and the
/// adaptive bounds.
pub open spec fn tail_lines(c: TowerRequestConfig) -> Seq<Seq<u8>> {
    seq![
        stmt_line(FieldKey::RetryJitterMode, jitter_bytes(c.retry_jitter_mode)),
        stmt_line(
            FieldKey::AdaptiveInitialConcurrency,
            fmt_u64(c.adaptive_concurrency.initial_concurrency as int),
        ),
        stmt_line(
            FieldKey::AdaptiveMaxConcurrencyLimit,
            fmt_u64(c.adaptive_concurrency.max_concurrency_limit as int),
        ),
    ]
}

/// The lines a configuration serializes to: one per present optional
/// field, in a fixed order, then the jitter mode and the adaptive
/// bounds, which are always present.
pub open spec fn ser_lines(c: TowerRequestConfig) -> Seq<Seq<u8>> {
    head_lines(c) + tail_lines(c)
}

/// Lines joined into a text, a newline after each.
pub open spec fn join_nl(lines: Seq<Seq<u8>>) -> Seq<u8>
    decreases lines.len(),
{
    if lines.len() == 0 {
        Seq::<u8>::empty()
    } else {
        lines[0] + seq![NL] + join_nl(lines.skip(1))
    }
}

/// What serialization emits.
pub open spec fn ser_spec(c: TowerRequestConfig) -> Seq<u8> {
    join_nl(ser_lines(c))
}

proof fn lemma_join_nl_append(a: Seq<Seq<u8>>, b: Seq<Seq<u8>>)
    ensures
        join_nl(a + b) == join_nl(a) + join_nl(b),
    decreases a.len(),
{
    if a.len() == 0 {
        assert(a + b =~= b);
        assert(join_nl(a) + join_nl(b) =~= join_nl(b));
    } else {
        lemma_join_nl_append(a.skip(1), b);
        assert((a + b).skip(1) =~= a.skip(1) + b);
        assert((a + b)[0] == a[0]);
        assert(a[0] + seq![NL] + (join_nl(a.skip(1)) + join_nl(b)) =~= (a[0] + seq![NL] + join_nl(
            a.skip(1),
        )) + join_nl(b));
    }
}

/// Joining one more line appends it and its newline.
proof fn lemma_join_nl_push(a: Seq<Seq<u8>>, l: Seq<u8>)
    ensures
        join_nl(a + seq![l]) == join_nl(a) + l + seq![NL],
{
    lemma_join_nl_append(a, seq![l]);
    assert(seq![l].skip(1) =~= Seq::<Seq<u8>>::empty());
    assert(seq![l][0] == l);
    assert(join_nl(Seq::<Seq<u8>>::empty()) =~= Seq::<u8>::empty());
    assert(join_nl(seq![l]) =~= l + seq![NL]);
    assert(join_nl(a) + (l + seq![NL]) =~= join_nl(a) + l + seq![NL]);
}

/// Append one line and its newline.
fn push_line(out: &mut Vec<u8>, key: &[u8], value: &[u8])
    ensures
        final(out)@ == old(out)@ + key@ + sep_bytes() + value@ + seq![NL],
{
    let mut i: usize = 0;
    let n = key.len();
    while i < n
        invariant
            0 <= i <= n,
            n == key@.len(),
            out@ == old(out)@ + key@.take(i as int),
        decreases n - i,
    {
        let b = key[i];
        out.push(b);
        proof {
            assert(old(out)@ + key@.take(i + 1) =~= (old(out)@ + key@.take(i as int)).push(
                key@[i as int],
            ));
        }
        i = i + 1;
    }
    proof {
        assert(key@.take(n as int) =~= key@);
    }
    out.push(SP);
    out.push(EQ);
    out.push(SP);
    let m = value.len();
    let ghost mid = out@;
    let mut j: usize = 0;
    while j < m
        invariant
            0 <= j <= m,
            m == value@.len(),
            out@ == mid + value@.take(j as int),
        decreases m - j,
    {
        let b = value[j];
        out.push(b);
        proof {
            assert(mid + value@.take(j + 1) =~= (mid + value@.take(j as int)).push(
                value@[j as int],
            ));
        }
        j = j + 1;
    }
    proof {
        assert(value@.take(m as int) =~= value@);
    }
    out.push(NL);
    proof {
        assert(out@ =~= old(out)@ + key@ + sep_bytes() + value@ + seq![NL]);
    }
}

/// Emit one statement line and record it against the line list.
fn emit_line(
    out: &mut Vec<u8>,
    Ghost(lines): Ghost<Seq<Seq<u8>>>,
    key: &[u8],
    value: &[u8],
    Ghost(k): Ghost<FieldKey>,
) -> (r: Ghost<Seq<Seq<u8>>>)
    requires
        old(out)@ == join_nl(lines),
        key@ == key_spelling(k),
    ensures
        r@ == lines + seq![stmt_line(k, value@)],
        final(out)@ == join_nl(r@),
{
    push_line(out, key, value);
    proof {
        lemma_join_nl_push(lines, stmt_line(k, value@));
        assert(join_nl(lines) + key@ + sep_bytes() + value@ + seq![NL] =~= join_nl(lines)
            + stmt_line(k, value@) + seq![NL]);
    }
    Ghost(lines + seq![stmt_line(k, value@)])
}

impl TowerRequestConfig {
    /// The lines of the optional fields, emitted in order.
    fn serialize_head(&self, out: &mut Vec<u8>) -> (r: Ghost<Seq<Seq<u8>>>)
        requires
            old(out)@.len() == 0,
        ensures
            r@ == head_lines(*self),
            final(out)@ == join_nl(r@),
    {
        proof {
            lemma_key_spellings();
        }
        let mut lines: Ghost<Seq<Seq<u8>>> = Ghost(Seq::<Seq<u8>>::empty());
        proof {
            assert(out@ =~= join_nl(lines@));
        }
        match self.concurrency {
            Some(v) => {
                let vb: Vec<u8> = match v {
                    Concurrency::Adaptive => vstd::slice::slice_to_vec("\"adaptive\"".as_bytes()),
                    Concurrency::Unlimited => vstd::slice::slice_to_vec("\"none\"".as_bytes()),
                    Concurrency::Fixed(n) => fmt_u64_exec(n as u64),
                };
                proof {
                    assert(vb@ == conc_bytes(v));
                }
                lines = emit_line(
                    out,
                    lines,
                    "concurrency".as_bytes(),
                    vb.as_slice(),
                    Ghost(FieldKey::Concurrency),
                );
            },
            None => (),
        }
        proof {
            assert(lines@ =~= opt_conc_line(self.concurrency));
        }
        let ghost g1 = lines@;
        match self.timeout_secs {
            Some(v) => {
                let vb = fmt_u64_exec(v);
                lines = emit_line(
                    out,
                    lines,
                    "timeout_secs".as_bytes(),
                    vb.as_slice(),
                    Ghost(FieldKey::TimeoutSecs),
                );
            },
            None => (),
        }
        proof {
            assert(lines@ =~= g1 + opt_num_line(FieldKey::TimeoutSecs, self.timeout_secs));
        }
        let ghost g2 = lines@;
        match self.rate_limit_duration_secs {
            Some(v) => {
                let vb = fmt_u64_exec(v);
                lines = emit_line(
                    out,
                    lines,
                    "rate_limit_duration_secs".as_bytes(),
                    vb.as_slice(),
                    Ghost(FieldKey::RateLimitDurationSecs),
                );
            },
            None => (),
        }
        proof {
            assert(lines@ =~= g2 + opt_num_line(
                FieldKey::RateLimitDurationSecs,
                self.rate_limit_duration_secs,
            ));
        }
        let ghost g3 = lines@;
        match self.rate_limit_num {
            Some(v) => {
                let vb = fmt_u64_exec(v);
                lines = emit_line(
                    out,
                    lines,
                    "rate_limit_num".as_bytes(),
                    vb.as_slice(),
                    Ghost(FieldKey::RateLimitNum),
                );
            },
            None => (),
        }
        proof {
            assert(lines@ =~= g3 + opt_num_line(FieldKey::RateLimitNum, self.rate_limit_num));
        }
        let ghost g4 = lines@;
        match self.retry_attempts {
            Some(v) => {
                let vb = fmt_u64_exec(v as u64);
                lines = emit_line(
                    out,
                    lines,
                    "retry_attempts".as_bytes(),
                    vb.as_slice(),
                    Ghost(FieldKey::RetryAttempts),
                );
            },
            None => (),
        }
        proof {
            assert(lines@ =~= g4 + opt_num_line(
                FieldKey::RetryAttempts,
                match self.retry_attempts {
                    Some(v) => Some(v as u64),
                    None => None,
                },
            ));
        }
        let ghost g5 = lines@;
        match self.retry_max_duration_secs {
            Some(v) => {
                let vb = fmt_u64_exec(v);
                lines = emit_line(
                    out,
                    lines,
                    "retry_max_duration_secs".as_bytes(),
                    vb.as_slice(),
                    Ghost(FieldKey::RetryMaxDurationSecs),
                );
            },
            None => (),
        }
        proof {
            assert(lines@ =~= g5 + opt_num_line(
                FieldKey::RetryMaxDurationSecs,
                self.retry_max_duration_secs,
            ));
        }
        let ghost g6 = lines@;
        match self.retry_initial_backoff_secs {
            Some(v) => {
                let vb = fmt_u64_exec(v);
                lines = emit_line(
                    out,
                    lines,
                    "retry_initial_backoff_secs".as_bytes(),
                    vb.as_slice(),
                    Ghost(FieldKey::RetryInitialBackoffSecs),
                );
            },
            None => (),
        }
        proof {
            assert(lines@ =~= g6 + opt_num_line(
                FieldKey::RetryInitialBackoffSecs,
                self.retry_initial_backoff_secs,
            ));
            assert(lines@ =~= head_lines(*self));
        }
        lines
    }

    /// Write the configuration out as `key = value` lines: one per
    /// present optional field, then the jitter mode and the adaptive
    /// bounds.
    pub fn serialize(&self) -> (r: Vec<u8>)
        ensures
            r@ == ser_spec(*self),
    {
        proof {
            lemma_key_spellings();
        }
        let mut out: Vec<u8> = Vec::new();
        let mut lines = self.serialize_head(&mut out);
        {
            let vb: Vec<u8> = match self.retry_jitter_mode {
                JitterMode::Off => vstd::slice::slice_to_vec("\"none\"".as_bytes()),
                JitterMode::Full => vstd::slice::slice_to_vec("\"full\"".as_bytes()),
            };
            proof {
                assert(vb@ == jitter_bytes(self.retry_jitter_mode));
            }
            lines = emit_line(
                &mut out,
                lines,
                "retry_jitter_mode".as_bytes(),
                vb.as_slice(),
                Ghost(FieldKey::RetryJitterMode),
            );
        }
        {
            let vb = fmt_u64_exec(self.adaptive_concurrency.initial_concurrency as u64);
            lines = emit_line(
                &mut out,
                lines,
                "adaptive_concurrency.initial_concurrency".as_bytes(),
                vb.as_slice(),
                Ghost(FieldKey::AdaptiveInitialConcurrency),
            );
        }
        {
            let vb = fmt_u64_exec(self.adaptive_concurrency.max_concurrency_limit as u64);
            lines = emit_line(
                &mut out,
                lines,
                "adaptive_concurrency.max_concurrency_limit".as_bytes(),
                vb.as_slice(),
                Ghost(FieldKey::AdaptiveMaxConcurrencyLimit),
            );
        }
        proof {
            assert(lines@ =~= ser_lines(*self));
        }
        out
    }
}

/// Apply one parsed assignment.
fn apply_field(c: TowerRequestConfig, k: FieldKey, v: FieldValue) -> (r: TowerRequestConfig)
    ensures
        r == set_field(c, k, v),
{
    match k {
        FieldKey::Concurrency => match v {
            FieldValue::Conc(x) => TowerRequestConfig { concurrency: Some(x), ..c },
            _ => c,
        },
        FieldKey::TimeoutSecs => match v {
            FieldValue::Num(n) => TowerRequestConfig { timeout_secs: Some(n), ..c },
            _ => c,
        },
        FieldKey::RateLimitDurationSecs => match v {
            FieldValue::Num(n) => TowerRequestConfig { rate_limit_duration_secs: Some(n), ..c },
            _ => c,
        },
        FieldKey::RateLimitNum => match v {
            FieldValue::Num(n) => TowerRequestConfig { rate_limit_num: Some(n), ..c },
            _ => c,
        },
        FieldKey::RetryAttempts => match v {
            FieldValue::Num(n) => TowerRequestConfig { retry_attempts: Some(n as usize), ..c },
            _ => c,
        },
        FieldKey::RetryMaxDurationSecs => match v {
            FieldValue::Num(n) => TowerRequestConfig { retry_max_duration_secs: Some(n), ..c },
            _ => c,
        },
        FieldKey::RetryInitialBackoffSecs => match v {
            FieldValue::Num(n) => TowerRequestConfig { retry_initial_backoff_secs: Some(n), ..c },
            _ => c,
        },
        FieldKey::RetryJitterMode => match v {
            FieldValue::Jitter(j) => TowerRequestConfig { retry_jitter_mode: j, ..c },
            _ => c,
        },
        FieldKey::AdaptiveInitialConcurrency => match v {
            FieldValue::Num(n) => TowerRequestConfig {
                adaptive_concurrency: crate::concurrency::AdaptiveConcurrencySettings {
                    initial_concurrency: n as usize,
                    ..c.adaptive_concurrency
                },
                ..c
            },
            _ => c,
        },
        FieldKey::AdaptiveMaxConcurrencyLimit => match v {
            FieldValue::Num(n) => TowerRequestConfig {
                adaptive_concurrency: crate::concurrency::AdaptiveConcurrencySettings {
                    max_concurrency_limit: n as usize,
                    ..c.adaptive_concurrency
                },
                ..c
            },
            _ => c,
        },
    }
}

/// A line that holds no newline.
pub open spec fn nl_free(l: Seq<u8>) -> bool {
    forall|j: int| 0 <= j < l.len() ==> l[j] != NL
}

/// Every line of the list holds no newline.
pub open spec fn all_nl_free(ls: Seq<Seq<u8>>) -> bool {
    forall|i: int| 0 <= i < ls.len() ==> nl_free(#[trigger] ls[i])
}

proof fn lemma_all_nl_free_append(a: Seq<Seq<u8>>, b: Seq<Seq<u8>>)
    requires
        all_nl_free(a),
        all_nl_free(b),
    ensures
        all_nl_free(a + b),
{
    assert forall|i: int| 0 <= i < (a + b).len() implies nl_free(#[trigger] (a + b)[i]) by {
        if i < a.len() {
            assert((a + b)[i] == a[i]);
        } else {
            assert((a + b)[i] == b[i - a.len()]);
        }
    }
}

/// Every key's spelling is usable on a line: nonempty, free of
/// spaces, of newlines and of the separator, and recognized as
/// exactly its own setting.
proof fn lemma_key_wf(k: FieldKey)
    ensures
        key_spelling(k).len() >= 1,
        key_spelling(k)[0] != SP,
        key_spelling(k).last() != SP,
        forall|j: int|
            0 <= j < key_spelling(k).len() ==> (#[trigger] key_spelling(k)[j]) != EQ
                && key_spelling(k)[j] != NL && key_spelling(k)[j] != SP,
        key_of(key_spelling(k)) == Some(k),
{
    reveal_strlit("concurrency");
    reveal_strlit("timeout_secs");
    reveal_strlit("rate_limit_duration_secs");
    reveal_strlit("rate_limit_num");
    reveal_strlit("retry_attempts");
    reveal_strlit("retry_max_duration_secs");
    reveal_strlit("retry_initial_backoff_secs");
    reveal_strlit("retry_jitter_mode");
    reveal_strlit("adaptive_concurrency.initial_concurrency");
    reveal_strlit("adaptive_concurrency.max_concurrency_limit");
    assert(key_spelling(FieldKey::Concurrency).len() == 11);
    assert(key_spelling(FieldKey::TimeoutSecs).len() == 12);
    assert(key_spelling(FieldKey::RateLimitDurationSecs).len() == 24);
    assert(key_spelling(FieldKey::RateLimitNum).len() == 14);
    assert(key_spelling(FieldKey::RetryAttempts).len() == 14);
    assert(key_spelling(FieldKey::RetryMaxDurationSecs).len() == 23);
    assert(key_spelling(FieldKey::RetryInitialBackoffSecs).len() == 26);
    assert(key_spelling(FieldKey::RetryJitterMode).len() == 17);
    assert(key_spelling(FieldKey::AdaptiveInitialConcurrency).len() == 40);
    assert(key_spelling(FieldKey::AdaptiveMaxConcurrencyLimit).len() == 42);
    assert(key_spelling(FieldKey::RateLimitNum)[1] == 97);
    assert(key_spelling(FieldKey::RetryAttempts)[1] == 101);
}

/// What the grammar makes of one emitted statement line: exactly the
/// value's meaning for that key.
proof fn lemma_parse_stmt_line(k: FieldKey, v: Seq<u8>)
    requires
        v.len() >= 1,
        v[0] != SP,
        v.last() != SP,
    ensures
        parse_line_spec(stmt_line(k, v)) == (match spec_parse_value(k, v) {
            Ok(fv) => LineView::Stmt(k, fv),
            Err(e) => LineView::Bad(e),
        }),
{
    lemma_key_wf(k);
    let kseq = key_spelling(k);
    let l = stmt_line(k, v);
    let kl = kseq.len() as int;
    assert(l.len() == kl + 3 + v.len());
    assert(l[0] == kseq[0]);
    assert(l.last() == v.last());
    assert(trim_left(l) == l);
    assert(trim_right(l) == l);
    assert(l[kl + 1] == EQ);
    lemma_find_first(l, EQ);
    let f = find_first(l, EQ);
    assert(f == kl + 1) by {
        if f == -1 {
            assert(l[kl + 1] == EQ);
        } else {
            if f < kl {
                assert(l[f] == kseq[f]);
            }
            if f == kl {
                assert(l[kl] == SP);
            }
        }
    }
    assert(l.take(kl + 1) =~= kseq + seq![SP]);
    lemma_trim_right_at(l.take(kl + 1), kl);
    assert(l.take(kl + 1).take(kl) =~= kseq);
    assert(trim_right(l.take(f)) == kseq);
    assert(l.skip(f + 1) =~= seq![SP] + v);
    lemma_trim_left_at(l.skip(f + 1), 1);
    assert((seq![SP] + v).skip(1) =~= v);
    assert(trim_left(l.skip(f + 1)) == v);
    assert(kseq.len() != 0);
}

/// One emitted statement, folded into the accumulated configuration.
proof fn lemma_interp_one(k: FieldKey, v: Seq<u8>, fv: FieldValue, acc: TowerRequestConfig)
    requires
        v.len() >= 1,
        v[0] != SP,
        v.last() != SP,
        spec_parse_value(k, v) == Ok::<FieldValue, ParseError>(fv),
    ensures
        interp_lines(seq![stmt_line(k, v)], acc) == Ok::<TowerRequestConfig, ParseError>(
            set_field(acc, k, fv),
        ),
{
    lemma_parse_stmt_line(k, v);
    let sl = seq![stmt_line(k, v)];
    assert(sl.len() == 1);
    assert(sl[0] == stmt_line(k, v));
    assert(parse_line_spec(sl[0]) == LineView::Stmt(k, fv));
    assert(sl.skip(1).len() == 0);
    assert(interp_lines(sl.skip(1), set_field(acc, k, fv)) == Ok::<TowerRequestConfig, ParseError>(
        set_field(acc, k, fv),
    ));
}

/// Folding a first batch of lines, then the rest.
proof fn lemma_interp_append(
    a: Seq<Seq<u8>>,
    b: Seq<Seq<u8>>,
    acc: TowerRequestConfig,
    m: TowerRequestConfig,
)
    requires
        interp_lines(a, acc) == Ok::<TowerRequestConfig, ParseError>(m),
    ensures
        interp_lines(a + b, acc) == interp_lines(b, m),
    decreases a.len(),
{
    if a.len() == 0 {
        assert(a + b =~= b);
        assert(m == acc);
    } else {
        assert((a + b)[0] == a[0]);
        assert((a + b).skip(1) =~= a.skip(1) + b);
        match parse_line_spec(a[0]) {
            LineView::Blank => {
                lemma_interp_append(a.skip(1), b, acc, m);
            },
            LineView::Stmt(k, v) => {
                lemma_interp_append(a.skip(1), b, set_field(acc, k, v), m);
            },
            LineView::Bad(e) => {
                assert(false);
            },
        }
    }
}

/// Splitting rejoined lines gives the lines back, plus the empty line
/// after the final newline.
proof fn lemma_split_join(lines: Seq<Seq<u8>>)
    requires
        all_nl_free(lines),
    ensures
        split_lines(join_nl(lines)) == lines + seq![Seq::<u8>::empty()],
    decreases lines.len(),
{
    if lines.len() == 0 {
        assert(join_nl(lines) =~= Seq::<u8>::empty());
        assert(split_lines(join_nl(lines)) =~~= lines + seq![Seq::<u8>::empty()]);
    } else {
        let l0 = lines[0];
        let s = join_nl(lines);
        let n0 = l0.len() as int;
        assert(s == l0 + seq![NL] + join_nl(lines.skip(1)));
        assert(s[n0] == NL);
        assert(nl_free(l0));
        assert(forall|i: int| 0 <= i < n0 ==> s[i] == l0[i]);
        lemma_split_at_nl(s, n0);
        assert(s.take(n0) =~= l0);
        assert(s.skip(n0 + 1) =~= join_nl(lines.skip(1)));
        lemma_split_join(lines.skip(1));
        assert(split_lines(s) =~~= lines + seq![Seq::<u8>::empty()]);
    }
}

/// The spellings of the quoted words, pinned down.
proof fn lemma_word_facts()
    ensures
        str_bytes("\"adaptive\"").len() == 10,
        str_bytes("\"adaptive\"")[0] == QUOTE,
        str_bytes("\"adaptive\"").last() == QUOTE,
        str_bytes("\"none\"").len() == 6,
        str_bytes("\"none\"")[0] == QUOTE,
        str_bytes("\"none\"").last() == QUOTE,
        str_bytes("\"none\"")[1] == 110,
        str_bytes("\"full\"").len() == 6,
        str_bytes("\"full\"")[0] == QUOTE,
        str_bytes("\"full\"").last() == QUOTE,
        str_bytes("\"full\"")[1] == 102,
        forall|j: int|
            0 <= j < str_bytes("\"adaptive\"").len() ==> (#[trigger] str_bytes("\"adaptive\"")[j])
                != NL && str_bytes("\"adaptive\"")[j] != SP,
        forall|j: int|
            0 <= j < str_bytes("\"none\"").len() ==> (#[trigger] str_bytes("\"none\"")[j]) != NL
                && str_bytes("\"none\"")[j] != SP,
        forall|j: int|
            0 <= j < str_bytes("\"full\"").len() ==> (#[trigger] str_bytes("\"full\"")[j]) != NL
                && str_bytes("\"full\"")[j] != SP,
{
    reveal_strlit("\"adaptive\"");
    reveal_strlit("\"none\"");
    reveal_strlit("\"full\"");
}

/// A digit string is free of spaces and newlines at every position.
proof fn lemma_digits_chars(v: Seq<u8>)
    requires
        all_digits(v),
    ensures
        forall|j: int| 0 <= j < v.len() ==> (#[trigger] v[j]) != NL && v[j] != SP && v[j] != QUOTE,
        v.len() >= 1 ==> v[0] != SP && v.last() != SP,
{
    assert forall|j: int| 0 <= j < v.len() implies (#[trigger] v[j]) != NL && v[j] != SP && v[j]
        != QUOTE by {
        assert(is_digit(v[j]));
    }
}

/// One optional count field, folded into the accumulated
/// configuration.
proof fn lemma_interp_opt_num(k: FieldKey, o: Option<u64>, acc: TowerRequestConfig)
    requires
        k != FieldKey::Concurrency,
        k != FieldKey::RetryJitterMode,
        o is Some && key_takes_usize(k) ==> o->0 <= usize::MAX,
    ensures
        interp_lines(opt_num_line(k, o), acc) == Ok::<TowerRequestConfig, ParseError>(
            match o {
                Some(v) => set_field(acc, k, FieldValue::Num(v)),
                None => acc,
            },
        ),
{
    match o {
        None => {
            assert(opt_num_line(k, o).len() == 0);
        },
        Some(v) => {
            lemma_fmt_u64(v as int);
            let vb = fmt_u64(v as int);
            lemma_digits_chars(vb);
            assert(spec_parse_num(vb) == Some(v));
            assert(spec_parse_value(k, vb) == Ok::<FieldValue, ParseError>(FieldValue::Num(v)));
            lemma_interp_one(k, vb, FieldValue::Num(v), acc);
            assert(opt_num_line(k, o) == seq![stmt_line(k, vb)]);
        },
    }
}

/// The concurrency field, folded into the accumulated configuration.
proof fn lemma_interp_conc(o: Option<Concurrency>, acc: TowerRequestConfig)
    requires
        o is Some ==> (match o->0 {
            Concurrency::Fixed(n) => n >= 1,
            _ => true,
        }),
    ensures
        interp_lines(opt_conc_line(o), acc) == Ok::<TowerRequestConfig, ParseError>(
            match o {
                Some(v) => set_field(acc, FieldKey::Concurrency, FieldValue::Conc(v)),
                None => acc,
            },
        ),
{
    lemma_word_facts();
    match o {
        None => {
            assert(opt_conc_line(o).len() == 0);
        },
        Some(v) => {
            let vb = conc_bytes(v);
            match v {
                Concurrency::Adaptive => {
                    assert(spec_parse_value(FieldKey::Concurrency, vb) == Ok::<
                        FieldValue,
                        ParseError,
                    >(FieldValue::Conc(Concurrency::Adaptive)));
                },
                Concurrency::Unlimited => {
                    assert(vb != str_bytes("\"adaptive\""));
                    assert(spec_parse_value(FieldKey::Concurrency, vb) == Ok::<
                        FieldValue,
                        ParseError,
                    >(FieldValue::Conc(Concurrency::Unlimited)));
                },
                Concurrency::Fixed(n) => {
                    lemma_fmt_u64(n as int);
                    lemma_digits_chars(vb);
                    assert(vb != str_bytes("\"adaptive\"")) by {
                        if vb.len() == str_bytes("\"adaptive\"").len() {
                            assert(vb[0] != QUOTE);
                        }
                    }
                    assert(vb != str_bytes("\"none\"")) by {
                        if vb.len() == str_bytes("\"none\"").len() {
                            assert(vb[0] != QUOTE);
                        }
                    }
                    assert(spec_parse_num(vb) == Some(n as u64));
                    assert((n as u64) as usize == n);
                    assert(n as u64 >= 1);
                    assert(n as u64 <= usize::MAX);
                    assert(spec_parse_value(FieldKey::Concurrency, vb) == Ok::<
                        FieldValue,
                        ParseError,
                    >(FieldValue::Conc(Concurrency::Fixed(n))));
                },
            }
            lemma_interp_one(FieldKey::Concurrency, vb, FieldValue::Conc(v), acc);
            assert(opt_conc_line(o) == seq![stmt_line(FieldKey::Concurrency, vb)]);
        },
    }
}

/// The jitter line, folded into the accumulated configuration.
proof fn lemma_interp_jitter(j: JitterMode, acc: TowerRequestConfig)
    ensures
        interp_lines(seq![stmt_line(FieldKey::RetryJitterMode, jitter_bytes(j))], acc) == Ok::<
            TowerRequestConfig,
            ParseError,
        >(set_field(acc, FieldKey::RetryJitterMode, FieldValue::Jitter(j))),
{
    lemma_word_facts();
    let vb = jitter_bytes(j);
    match j {
        JitterMode::Off => {
            assert(spec_parse_value(FieldKey::RetryJitterMode, vb) == Ok::<FieldValue, ParseError>(
                FieldValue::Jitter(JitterMode::Off),
            ));
        },
        JitterMode::Full => {
            assert(vb != str_bytes("\"none\""));
            assert(spec_parse_value(FieldKey::RetryJitterMode, vb) == Ok::<FieldValue, ParseError>(
                FieldValue::Jitter(JitterMode::Full),
            ));
        },
    }
    lemma_interp_one(FieldKey::RetryJitterMode, vb, FieldValue::Jitter(j), acc);
}

/// A configuration the serializer can round: a fixed concurrency, if
/// set, is at least one — exactly what parsing enforces.
pub open spec fn valid_config(c: TowerRequestConfig) -> bool {
    match c.concurrency {
        Some(Concurrency::Fixed(n)) => n >= 1,
        _ => true,
    }
}

/// An emitted line holds no newline when its value holds none.
proof fn lemma_stmt_nl_free(k: FieldKey, v: Seq<u8>)
    requires
        forall|j: int| 0 <= j < v.len() ==> (#[trigger] v[j]) != NL,
    ensures
        nl_free(stmt_line(k, v)),
{
    lemma_key_wf(k);
    let l = stmt_line(k, v);
    let kl = key_spelling(k).len() as int;
    assert forall|j: int| 0 <= j < l.len() implies l[j] != NL by {
        if j < kl {
            assert(l[j] == key_spelling(k)[j]);
        } else if j < kl + 3 {
            assert(l[j] == sep_bytes()[j - kl]);
        } else {
            assert(l[j] == v[j - kl - 3]);
        }
    }
}

/// The value on each emitted line holds no newline.
proof fn lemma_value_nl_free(k: FieldKey, v: u64)
    ensures
        all_nl_free(opt_num_line(k, Some(v))),
        all_nl_free(opt_num_line(k, None::<u64>)),
{
    lemma_fmt_u64(v as int);
    lemma_digits_chars(fmt_u64(v as int));
    lemma_stmt_nl_free(k, fmt_u64(v as int));
    assert(opt_num_line(k, Some(v))[0] == stmt_line(k, fmt_u64(v as int)));
    assert(opt_num_line(k, None::<u64>).len() == 0);
}

/// The lines of an optional count field hold no newline.
proof fn lemma_opt_num_nl_free(k: FieldKey, o: Option<u64>)
    ensures
        all_nl_free(opt_num_line(k, o)),
{
    match o {
        Some(v) => lemma_value_nl_free(k, v),
        None => lemma_value_nl_free(k, 0),
    }
}

/// Every emitted line holds no newline.
#[verifier::rlimit(100)]
proof fn lemma_group_nl_free(c: TowerRequestConfig)
    ensures
        all_nl_free(ser_lines(c)),
{
    lemma_word_facts();
    let g1 = opt_conc_line(c.concurrency);
    match c.concurrency {
        Some(v) => {
            match v {
                Concurrency::Fixed(n) => {
                    lemma_fmt_u64(n as int);
                    lemma_digits_chars(conc_bytes(v));
                },
                _ => (),
            }
            lemma_stmt_nl_free(FieldKey::Concurrency, conc_bytes(v));
            assert(g1[0] == stmt_line(FieldKey::Concurrency, conc_bytes(v)));
            assert(all_nl_free(g1));
        },
        None => {
            assert(all_nl_free(g1));
        },
    }
    let oa: Option<u64> = match c.retry_attempts {
        Some(v) => Some(v as u64),
        None => None,
    };
    let g2 = opt_num_line(FieldKey::TimeoutSecs, c.timeout_secs);
    let g3 = opt_num_line(FieldKey::RateLimitDurationSecs, c.rate_limit_duration_secs);
    let g4 = opt_num_line(FieldKey::RateLimitNum, c.rate_limit_num);
    let g5 = opt_num_line(FieldKey::RetryAttempts, oa);
    let g6 = opt_num_line(FieldKey::RetryMaxDurationSecs, c.retry_max_duration_secs);
    let g7 = opt_num_line(FieldKey::RetryInitialBackoffSecs, c.retry_initial_backoff_secs);
    lemma_opt_num_nl_free(FieldKey::TimeoutSecs, c.timeout_secs);
    lemma_opt_num_nl_free(FieldKey::RateLimitDurationSecs, c.rate_limit_duration_secs);
    lemma_opt_num_nl_free(FieldKey::RateLimitNum, c.rate_limit_num);
    lemma_opt_num_nl_free(FieldKey::RetryAttempts, oa);
    lemma_opt_num_nl_free(FieldKey::RetryMaxDurationSecs, c.retry_max_duration_secs);
    lemma_opt_num_nl_free(FieldKey::RetryInitialBackoffSecs, c.retry_initial_backoff_secs);
    lemma_all_nl_free_append(g1, g2);
    lemma_all_nl_free_append(g1 + g2, g3);
    lemma_all_nl_free_append(g1 + g2 + g3, g4);
    lemma_all_nl_free_append(g1 + g2 + g3 + g4, g5);
    lemma_all_nl_free_append(g1 + g2 + g3 + g4 + g5, g6);
    lemma_all_nl_free_append(g1 + g2 + g3 + g4 + g5 + g6, g7);
    assert(all_nl_free(head_lines(c)));
    lemma_stmt_nl_free(FieldKey::RetryJitterMode, jitter_bytes(c.retry_jitter_mode));
    lemma_fmt_u64(c.adaptive_concurrency.initial_concurrency as int);
    lemma_digits_chars(fmt_u64(c.adaptive_concurrency.initial_concurrency as int));
    lemma_stmt_nl_free(
        FieldKey::AdaptiveInitialConcurrency,
        fmt_u64(c.adaptive_concurrency.initial_concurrency as int),
    );
    lemma_fmt_u64(c.adaptive_concurrency.max_concurrency_limit as int);
    lemma_digits_chars(fmt_u64(c.adaptive_concurrency.max_concurrency_limit as int));
    lemma_stmt_nl_free(
        FieldKey::AdaptiveMaxConcurrencyLimit,
        fmt_u64(c.adaptive_concurrency.max_concurrency_limit as int),
    );
    assert(all_nl_free(tail_lines(c)));
    lemma_all_nl_free_append(head_lines(c), tail_lines(c));
}

/// The line of nothing but the final newline means nothing.
proof fn lemma_interp_empty_line(acc: TowerRequestConfig)
    ensures
        interp_lines(seq![Seq::<u8>::empty()], acc) == Ok::<TowerRequestConfig, ParseError>(acc),
{
    assert(trim_left(Seq::<u8>::empty()) == Seq::<u8>::empty());
    assert(trim_right(Seq::<u8>::empty()) == Seq::<u8>::empty());
    assert(trim(Seq::<u8>::empty()).len() == 0);
    assert(parse_line_spec(Seq::<u8>::empty()) == LineView::Blank);
    let sl = seq![Seq::<u8>::empty()];
    assert(sl.len() == 1);
    assert(sl[0] == Seq::<u8>::empty());
    assert(sl.skip(1).len() == 0);
    assert(interp_lines(sl.skip(1), acc) == Ok::<TowerRequestConfig, ParseError>(acc));
}

/// The optional fields of a configuration, folded into the
/// configuration with nothing set.
pub open spec fn folded_head(c: TowerRequestConfig) -> TowerRequestConfig {
    let acc0 = crate::config::empty_config();
    let acc1 = match c.concurrency {
        Some(v) => set_field(acc0, FieldKey::Concurrency, FieldValue::Conc(v)),
        None => acc0,
    };
    let acc2 = match c.timeout_secs {
        Some(v) => set_field(acc1, FieldKey::TimeoutSecs, FieldValue::Num(v)),
        None => acc1,
    };
    let acc3 = match c.rate_limit_duration_secs {
        Some(v) => set_field(acc2, FieldKey::RateLimitDurationSecs, FieldValue::Num(v)),
        None => acc2,
    };
    let acc4 = match c.rate_limit_num {
        Some(v) => set_field(acc3, FieldKey::RateLimitNum, FieldValue::Num(v)),
        None => acc3,
    };
    let acc5 = match c.retry_attempts {
        Some(v) => set_field(acc4, FieldKey::RetryAttempts, FieldValue::Num(v as u64)),
        None => acc4,
    };
    let acc6 = match c.retry_max_duration_secs {
        Some(v) => set_field(acc5, FieldKey::RetryMaxDurationSecs, FieldValue::Num(v)),
        None => acc5,
    };
    match c.retry_initial_backoff_secs {
        Some(v) => set_field(acc6, FieldKey::RetryInitialBackoffSecs, FieldValue::Num(v)),
        None => acc6,
    }
}

/// A whole configuration, folded into the configuration with nothing
/// set: the optional fields, then the always-present ones.
pub open spec fn folded(c: TowerRequestConfig) -> TowerRequestConfig {
    set_field(
        set_field(
            set_field(
                folded_head(c),
                FieldKey::RetryJitterMode,
                FieldValue::Jitter(c.retry_jitter_mode),
            ),
            FieldKey::AdaptiveInitialConcurrency,
            FieldValue::Num(c.adaptive_concurrency.initial_concurrency as u64),
        ),
        FieldKey::AdaptiveMaxConcurrencyLimit,
        FieldValue::Num(c.adaptive_concurrency.max_concurrency_limit as u64),
    )
}

/// Folding a configuration's own assignments gives the configuration
/// back.
proof fn lemma_fold_eq(c: TowerRequestConfig)
    ensures
        folded(c) == c,
{
}

/// The optional fields' lines, folded in order ahead of whatever
/// follows them.
#[verifier::rlimit(100)]
proof fn lemma_interp_head(c: TowerRequestConfig, r: Seq<Seq<u8>>)
    requires
        valid_config(c),
    ensures
        interp_lines(
            opt_conc_line(c.concurrency) + (opt_num_line(FieldKey::TimeoutSecs, c.timeout_secs) + (
            opt_num_line(FieldKey::RateLimitDurationSecs, c.rate_limit_duration_secs) + (
            opt_num_line(FieldKey::RateLimitNum, c.rate_limit_num) + (opt_num_line(
                FieldKey::RetryAttempts,
                match c.retry_attempts {
                    Some(v) => Some(v as u64),
                    None => None,
                },
            ) + (opt_num_line(FieldKey::RetryMaxDurationSecs, c.retry_max_duration_secs) + (
            opt_num_line(FieldKey::RetryInitialBackoffSecs, c.retry_initial_backoff_secs)
                + r)))))),
            crate::config::empty_config(),
        ) == interp_lines(r, folded_head(c)),
{
    let g1 = opt_conc_line(c.concurrency);
    let g2 = opt_num_line(FieldKey::TimeoutSecs, c.timeout_secs);
    let g3 = opt_num_line(FieldKey::RateLimitDurationSecs, c.rate_limit_duration_secs);
    let g4 = opt_num_line(FieldKey::RateLimitNum, c.rate_limit_num);
    let oa: Option<u64> = match c.retry_attempts {
        Some(v) => Some(v as u64),
        None => None,
    };
    let g5 = opt_num_line(FieldKey::RetryAttempts, oa);
    let g6 = opt_num_line(FieldKey::RetryMaxDurationSecs, c.retry_max_duration_secs);
    let g7 = opt_num_line(FieldKey::RetryInitialBackoffSecs, c.retry_initial_backoff_secs);
    let acc0 = crate::config::empty_config();
    let acc1 = match c.concurrency {
        Some(v) => set_field(acc0, FieldKey::Concurrency, FieldValue::Conc(v)),
        None => acc0,
    };
    let acc2 = match c.timeout_secs {
        Some(v) => set_field(acc1, FieldKey::TimeoutSecs, FieldValue::Num(v)),
        None => acc1,
    };
    let acc3 = match c.rate_limit_duration_secs {
        Some(v) => set_field(acc2, FieldKey::RateLimitDurationSecs, FieldValue::Num(v)),
        None => acc2,
    };
    let acc4 = match c.rate_limit_num {
        Some(v) => set_field(acc3, FieldKey::RateLimitNum, FieldValue::Num(v)),
        None => acc3,
    };
    let acc5 = match oa {
        Some(v) => set_field(acc4, FieldKey::RetryAttempts, FieldValue::Num(v)),
        None => acc4,
    };
    let acc6 = match c.retry_max_duration_secs {
        Some(v) => set_field(acc5, FieldKey::RetryMaxDurationSecs, FieldValue::Num(v)),
        None => acc5,
    };
    let acc7 = match c.retry_initial_backoff_secs {
        Some(v) => set_field(acc6, FieldKey::RetryInitialBackoffSecs, FieldValue::Num(v)),
        None => acc6,
    };
    assert(acc7 == folded_head(c));
    lemma_interp_conc(c.concurrency, acc0);
    lemma_interp_append(g1, g2 + (g3 + (g4 + (g5 + (g6 + (g7 + r))))), acc0, acc1);
    lemma_interp_opt_num(FieldKey::TimeoutSecs, c.timeout_secs, acc1);
    lemma_interp_append(g2, g3 + (g4 + (g5 + (g6 + (g7 + r)))), acc1, acc2);
    lemma_interp_opt_num(FieldKey::RateLimitDurationSecs, c.rate_limit_duration_secs, acc2);
    lemma_interp_append(g3, g4 + (g5 + (g6 + (g7 + r))), acc2, acc3);
    lemma_interp_opt_num(FieldKey::RateLimitNum, c.rate_limit_num, acc3);
    lemma_interp_append(g4, g5 + (g6 + (g7 + r)), acc3, acc4);
    lemma_interp_opt_num(FieldKey::RetryAttempts, oa, acc4);
    lemma_interp_append(g5, g6 + (g7 + r), acc4, acc5);
    lemma_interp_opt_num(FieldKey::RetryMaxDurationSecs, c.retry_max_duration_secs, acc5);
    lemma_interp_append(g6, g7 + r, acc5, acc6);
    lemma_interp_opt_num(FieldKey::RetryInitialBackoffSecs, c.retry_initial_backoff_secs, acc6);
    lemma_interp_append(g7, r, acc6, acc7);
}

/// The always-present lines — jitter mode and adaptive bounds — and
/// the final empty line, folded in order.
proof fn lemma_interp_tail(j: JitterMode, ai: u64, am: u64, acc: TowerRequestConfig)
    requires
        ai <= usize::MAX,
        am <= usize::MAX,
    ensures
        interp_lines(
            seq![stmt_line(FieldKey::RetryJitterMode, jitter_bytes(j))] + (opt_num_line(
                FieldKey::AdaptiveInitialConcurrency,
                Some(ai),
            ) + (opt_num_line(FieldKey::AdaptiveMaxConcurrencyLimit, Some(am)) + seq![
                Seq::<u8>::empty(),
            ])),
            acc,
        ) == Ok::<TowerRequestConfig, ParseError>(
            set_field(
                set_field(
                    set_field(acc, FieldKey::RetryJitterMode, FieldValue::Jitter(j)),
                    FieldKey::AdaptiveInitialConcurrency,
                    FieldValue::Num(ai),
                ),
                FieldKey::AdaptiveMaxConcurrencyLimit,
                FieldValue::Num(am),
            ),
        ),
{
    let t1 = seq![stmt_line(FieldKey::RetryJitterMode, jitter_bytes(j))];
    let t2 = opt_num_line(FieldKey::AdaptiveInitialConcurrency, Some(ai));
    let t3 = opt_num_line(FieldKey::AdaptiveMaxConcurrencyLimit, Some(am));
    let e = seq![Seq::<u8>::empty()];
    let a8 = set_field(acc, FieldKey::RetryJitterMode, FieldValue::Jitter(j));
    let a9 = set_field(a8, FieldKey::AdaptiveInitialConcurrency, FieldValue::Num(ai));
    let a10 = set_field(a9, FieldKey::AdaptiveMaxConcurrencyLimit, FieldValue::Num(am));
    lemma_interp_jitter(j, acc);
    lemma_interp_append(t1, t2 + (t3 + e), acc, a8);
    lemma_interp_opt_num(FieldKey::AdaptiveInitialConcurrency, Some(ai), a8);
    lemma_interp_append(t2, t3 + e, a8, a9);
    lemma_interp_opt_num(FieldKey::AdaptiveMaxConcurrencyLimit, Some(am), a9);
    lemma_interp_append(t3, e, a9, a10);
    lemma_interp_empty_line(a10);
}

/// What serialization emits, split back into its lines.
proof fn lemma_parse_of_ser(c: TowerRequestConfig)
    ensures
        parse_spec(ser_spec(c)) == interp_lines(
            ser_lines(c) + seq![Seq::<u8>::empty()],
            crate::config::empty_config(),
        ),
{
    lemma_group_nl_free(c);
    lemma_split_join(ser_lines(c));
}

/// Joining lines one group at a time or all at once is the same.
proof fn seq_assoc(a: Seq<Seq<u8>>, b: Seq<Seq<u8>>, c: Seq<Seq<u8>>)
    ensures
        (a + b) + c == a + (b + c),
{
    assert((a + b) + c =~= a + (b + c));
}

/// The emitted lines, regrouped one field at a time.
#[verifier::rlimit(100)]
proof fn lemma_lines_shape(c: TowerRequestConfig)
    ensures
        ser_lines(c) + seq![Seq::<u8>::empty()] == opt_conc_line(c.concurrency) + (opt_num_line(
            FieldKey::TimeoutSecs,
            c.timeout_secs,
        ) + (opt_num_line(FieldKey::RateLimitDurationSecs, c.rate_limit_duration_secs) + (
        opt_num_line(FieldKey::RateLimitNum, c.rate_limit_num) + (opt_num_line(
            FieldKey::RetryAttempts,
            match c.retry_attempts {
                Some(v) => Some(v as u64),
                None => None,
            },
        ) + (opt_num_line(FieldKey::RetryMaxDurationSecs, c.retry_max_duration_secs) + (
        opt_num_line(FieldKey::RetryInitialBackoffSecs, c.retry_initial_backoff_secs) + (seq![
            stmt_line(FieldKey::RetryJitterMode, jitter_bytes(c.retry_jitter_mode)),
        ] + (opt_num_line(
            FieldKey::AdaptiveInitialConcurrency,
            Some(c.adaptive_concurrency.initial_concurrency as u64),
        ) + (opt_num_line(
            FieldKey::AdaptiveMaxConcurrencyLimit,
            Some(c.adaptive_concurrency.max_concurrency_limit as u64),
        ) + seq![Seq::<u8>::empty()]))))))))),
{
    let ai = c.adaptive_concurrency.initial_concurrency as u64;
    let am = c.adaptive_concurrency.max_concurrency_limit as u64;
    let t1 = seq![stmt_line(FieldKey::RetryJitterMode, jitter_bytes(c.retry_jitter_mode))];
    let t2 = opt_num_line(FieldKey::AdaptiveInitialConcurrency, Some(ai));
    let t3 = opt_num_line(FieldKey::AdaptiveMaxConcurrencyLimit, Some(am));
    let e = seq![Seq::<u8>::empty()];
    assert(t2[0] == stmt_line(
        FieldKey::AdaptiveInitialConcurrency,
        fmt_u64(c.adaptive_concurrency.initial_concurrency as int),
    ));
    assert(t3[0] == stmt_line(
        FieldKey::AdaptiveMaxConcurrencyLimit,
        fmt_u64(c.adaptive_concurrency.max_concurrency_limit as int),
    ));
    assert(tail_lines(c) =~= (t1 + t2) + t3);
    let g1 = opt_conc_line(c.concurrency);
    let g2 = opt_num_line(FieldKey::TimeoutSecs, c.timeout_secs);
    let g3 = opt_num_line(FieldKey::RateLimitDurationSecs, c.rate_limit_duration_secs);
    let g4 = opt_num_line(FieldKey::RateLimitNum, c.rate_limit_num);
    let oa: Option<u64> = match c.retry_attempts {
        Some(v) => Some(v as u64),
        None => None,
    };
    let g5 = opt_num_line(FieldKey::RetryAttempts, oa);
    let g6 = opt_num_line(FieldKey::RetryMaxDurationSecs, c.retry_max_duration_secs);
    let g7 = opt_num_line(FieldKey::RetryInitialBackoffSecs, c.retry_initial_backoff_secs);
    let h2 = g1 + g2;
    let h3 = h2 + g3;
    let h4 = h3 + g4;
    let h5 = h4 + g5;
    let h6 = h5 + g6;
    let h7 = h6 + g7;
    assert(head_lines(c) == h7);
    seq_assoc(h7, tail_lines(c), e);
    seq_assoc(t1 + t2, t3, e);
    seq_assoc(t1, t2, t3 + e);
    let x7 = t1 + (t2 + (t3 + e));
    seq_assoc(h6, g7, x7);
    let x6 = g7 + x7;
    seq_assoc(h5, g6, x6);
    let x5 = g6 + x6;
    seq_assoc(h4, g5, x5);
    let x4 = g5 + x5;
    seq_assoc(h3, g4, x4);
    let x3 = g4 + x4;
    seq_assoc(h2, g3, x3);
    let x2 = g3 + x3;
    seq_assoc(g1, g2, x2);
}

/// Any valid configuration survives the round trip: parsing what
/// serialization emitted yields the configuration back.
#[verifier::rlimit(100)]
pub proof fn lemma_parse_serialize_roundtrip(c: TowerRequestConfig)
    requires
        valid_config(c),
    ensures
        parse_spec(ser_spec(c)) == Ok::<TowerRequestConfig, ParseError>(c),
{
    let ai = c.adaptive_concurrency.initial_concurrency as u64;
    let am = c.adaptive_concurrency.max_concurrency_limit as u64;
    let r7 = seq![stmt_line(FieldKey::RetryJitterMode, jitter_bytes(c.retry_jitter_mode))] + (
    opt_num_line(FieldKey::AdaptiveInitialConcurrency, Some(ai)) + (opt_num_line(
        FieldKey::AdaptiveMaxConcurrencyLimit,
        Some(am),
    ) + seq![Seq::<u8>::empty()]));
    lemma_parse_of_ser(c);
    lemma_lines_shape(c);
    lemma_interp_head(c, r7);
    lemma_interp_tail(c.retry_jitter_mode, ai, am, folded_head(c));
    lemma_fold_eq(c);
}

} // verus!

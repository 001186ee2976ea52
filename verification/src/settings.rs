//! Sizes of the transmission queues and of the receive buffers, resolved from
//! the textual settings and the link limits that the caller has read.
use vstd::prelude::*;

verus! {

/// Name of the environment variable that sets the depth of each staging queue.
pub const TX_QUEUE_LEN_ENV: &'static str = "ZENOH_TX_QUEUE_LEN";

/// Depth of each staging queue when none is configured.
pub const DEFAULT_TX_QUEUE_LEN: usize = 8;

/// Name of the environment variable that sets the capacity of each egress queue.
pub const CAPACITY_ENV: &'static str = "ZENOH_DROP_OLDEST_CAPACITY";

/// Capacity of each egress queue when none is configured.
pub const DEFAULT_CAPACITY: usize = 64;

/// Name of the environment variable that sets how often evictions are logged.
pub const LOG_EVERY_ENV: &'static str = "ZENOH_DROP_OLDEST_LOG_EVERY";

/// One eviction in this many is logged when nothing is configured.
pub const DEFAULT_LOG_EVERY: u64 = 1000;

/// The text after an optional leading `+`.
pub open spec fn without_plus(s: Seq<char>) -> Seq<char> {
    if s.len() > 0 && s[0] == '+' {
        s.drop_first()
    } else {
        s
    }
}

/// A non-empty run of the digits `0` to `9`.
pub open spec fn is_digits(s: Seq<char>) -> bool {
    s.len() > 0 && forall|i: int| 0 <= i < s.len() ==> '0' <= #[trigger] s[i] <= '9'
}

/// The number that a run of digits writes in base ten.
pub open spec fn digits_value(s: Seq<char>) -> nat
    decreases s.len(),
{
    if s.len() == 0 {
        0
    } else {
        digits_value(s.drop_last()) * 10 + (s.last() as nat - '0' as nat) as nat
    }
}

/// The unsigned number a text denotes: decimal digits after an optional `+`,
/// with a value of at most `max`. Any other text denotes none.
pub open spec fn unsigned_value(s: Seq<char>, max: nat) -> Option<nat> {
    let digits = without_plus(s);
    if is_digits(digits) && digits_value(digits) <= max {
        Some(digits_value(digits))
    } else {
        None
    }
}

/// Calls `str::parse::<usize>`: decimal digits after an optional `+` sign give
/// their value if it fits; whitespace, underscores, other characters, an empty
/// run of digits and a value that is too large are errors.
#[verifier::external_body]
fn parse_usize(s: &str) -> (r: Option<usize>)
    ensures
        r is Some <==> unsigned_value(s@, usize::MAX as nat) is Some,
        r matches Some(n) ==> unsigned_value(s@, usize::MAX as nat) == Some(n as nat),
{
    s.parse::<usize>().ok()
}

/// Calls `str::parse::<u64>`: decimal digits after an optional `+` sign give
/// their value if it fits; whitespace, underscores, other characters, an empty
/// run of digits and a value that is too large are errors.
#[verifier::external_body]
fn parse_u64(s: &str) -> (r: Option<u64>)
    ensures
        r is Some <==> unsigned_value(s@, u64::MAX as nat) is Some,
        r matches Some(n) ==> unsigned_value(s@, u64::MAX as nat) == Some(n as nat),
{
    s.parse::<u64>().ok()
}

/// Where the depth of the staging queues comes from.
#[derive(Clone, Copy, Debug, PartialEq, Eq, Structural)]
pub enum TxQueueLen {
    /// Set to this depth.
    Configured(usize),
    /// Set to something that is no positive number: the default holds.
    Invalid,
    /// Not set: the default holds.
    Unset,
}

impl TxQueueLen {
    /// The depth to use.
    pub open spec fn depth(self) -> nat {
        match self {
            TxQueueLen::Configured(n) => n as nat,
            TxQueueLen::Invalid | TxQueueLen::Unset => DEFAULT_TX_QUEUE_LEN as nat,
        }
    }

    /// What a setting (`None` where the variable is not set) asks for.
    pub open spec fn of(var: Option<Seq<char>>) -> TxQueueLen {
        match var {
            None => TxQueueLen::Unset,
            Some(text) => match unsigned_value(text, usize::MAX as nat) {
                Some(n) if n > 0 => TxQueueLen::Configured(n as usize),
                _ => TxQueueLen::Invalid,
            },
        }
    }

    /// Reads the setting; `None` where the variable is not set.
    pub fn resolve(var: Option<&str>) -> (r: TxQueueLen)
        ensures
            r == TxQueueLen::of(text_of(var)),
            r.depth() > 0,
            r is Unset <==> var is None,
            var matches Some(text) ==> match unsigned_value(text@, usize::MAX as nat) {
                Some(n) if n > 0 => r matches TxQueueLen::Configured(depth) && depth == n,
                _ => r is Invalid,
            },
    {
        match var {
            None => TxQueueLen::Unset,
            Some(text) => match parse_usize(text) {
                Some(n) if n > 0 => TxQueueLen::Configured(n),
                _ => TxQueueLen::Invalid,
            },
        }
    }

    /// The depth to use.
    pub fn get(self) -> (n: usize)
        ensures
            n == self.depth(),
            self matches TxQueueLen::Configured(depth) ==> n == depth,
            !(self is Configured) ==> n == DEFAULT_TX_QUEUE_LEN,
    {
        match self {
            TxQueueLen::Configured(n) => n,
            TxQueueLen::Invalid | TxQueueLen::Unset => DEFAULT_TX_QUEUE_LEN,
        }
    }
}

/// The characters of an optional text.
pub open spec fn text_of(var: Option<&str>) -> Option<Seq<char>> {
    match var {
        None => None,
        Some(text) => Some(text@),
    }
}

/// The depth of the staging queues that a setting asks for, the default where it
/// is missing or invalid. Zero is invalid.
pub fn tx_queue_len(var: Option<&str>) -> (n: usize)
    ensures
        n == TxQueueLen::of(text_of(var)).depth(),
        n > 0,
        var is None ==> n == DEFAULT_TX_QUEUE_LEN,
        var matches Some(text) ==> match unsigned_value(text@, usize::MAX as nat) {
            Some(k) if k > 0 => n == k,
            _ => n == DEFAULT_TX_QUEUE_LEN,
        },
{
    TxQueueLen::resolve(var).get()
}

/// The larger of the two numbers.
pub open spec fn at_least(n: nat, low: nat) -> nat {
    if n < low {
        low
    } else {
        n
    }
}

/// The number a setting asks for, `default` where it is missing or no number,
/// and never less than one.
pub open spec fn setting_or(var: Option<Seq<char>>, default: nat, max: nat) -> nat {
    match var {
        None => at_least(default, 1),
        Some(text) => match unsigned_value(text, max) {
            None => at_least(default, 1),
            Some(n) => at_least(n, 1),
        },
    }
}

/// The capacity of each egress queue: [`DEFAULT_CAPACITY`] where the setting is
/// missing or no number; zero counts as one.
pub fn capacity_per_priority(var: Option<&str>) -> (n: usize)
    ensures
        n == setting_or(text_of(var), DEFAULT_CAPACITY as nat, usize::MAX as nat),
        n > 0,
        var is None ==> n == DEFAULT_CAPACITY,
        var matches Some(text) ==> match unsigned_value(text@, usize::MAX as nat) {
            Some(k) => k > 0 && n == k || k == 0 && n == 1,
            None => n == DEFAULT_CAPACITY,
        },
{
    let parsed = match var {
        None => None,
        Some(text) => parse_usize(text),
    };
    match parsed {
        None => DEFAULT_CAPACITY,
        Some(n) => if n < 1 {
            1
        } else {
            n
        },
    }
}

/// One eviction in how many is logged: [`DEFAULT_LOG_EVERY`] where the setting is
/// missing or no number; zero counts as one, so that every eviction is logged.
pub fn eviction_log_every(var: Option<&str>) -> (n: u64)
    ensures
        n == setting_or(text_of(var), DEFAULT_LOG_EVERY as nat, u64::MAX as nat),
        n > 0,
        var is None ==> n == DEFAULT_LOG_EVERY,
        var matches Some(text) ==> match unsigned_value(text@, u64::MAX as nat) {
            Some(k) => k > 0 && n == k || k == 0 && n == 1,
            None => n == DEFAULT_LOG_EVERY,
        },
{
    let parsed = match var {
        None => None,
        Some(text) => parse_u64(text),
    };
    match parsed {
        None => DEFAULT_LOG_EVERY,
        Some(n) => if n < 1 {
            1
        } else {
            n
        },
    }
}

/// How many receive buffers of `mtu` bytes fit in `rx_buffer_size` bytes, at
/// least one.
pub fn rx_buffer_count(rx_buffer_size: usize, mtu: usize) -> (n: usize)
    requires
        mtu > 0,
    ensures
        n == at_least((rx_buffer_size / mtu) as nat, 1),
        n >= 1,
        n * mtu <= rx_buffer_size || n == 1,
        (n + 1) * mtu > rx_buffer_size,
{
    proof {
        law_rx_buffers_fill_budget(rx_buffer_size as nat, mtu as nat);
    }
    let n: usize = rx_buffer_size / mtu;
    if n == 0 {
        1
    } else {
        n
    }
}

/// The receive buffers stay within the configured size, except that there is
/// always one, and a further buffer would no longer fit.
pub proof fn law_rx_buffers_fill_budget(rx_buffer_size: nat, mtu: nat)
    requires
        mtu > 0,
    ensures
        ({
            let n = at_least(rx_buffer_size / mtu, 1);
            &&& n >= 1
            &&& n * mtu <= rx_buffer_size || n == 1
            &&& (n + 1) * mtu > rx_buffer_size
        }),
{
    let q = rx_buffer_size / mtu;
    assert(q * mtu <= rx_buffer_size < (q + 1) * mtu) by (nonlinear_arith)
        requires
            mtu > 0,
            q == rx_buffer_size / mtu,
    ;
    if q == 0 {
        assert(2 * mtu > rx_buffer_size) by (nonlinear_arith)
            requires
                rx_buffer_size < (0 + 1) * mtu,
                mtu > 0,
        ;
    }
}

/// The digit that stands for a number below ten.
pub open spec fn digit(d: nat) -> char {
    ('0' as nat + d) as char
}

/// The decimal digits of a number, without leading zeros.
pub open spec fn decimal(n: nat) -> Seq<char>
    decreases n,
{
    if n < 10 {
        seq![digit(n)]
    } else {
        decimal(n / 10).push(digit(n % 10))
    }
}

proof fn lemma_decimal_value(n: nat)
    ensures
        is_digits(decimal(n)),
        digits_value(decimal(n)) == n,
    decreases n,
{
    if n < 10 {
        assert(decimal(n).drop_last() =~= Seq::empty());
        assert(digits_value(Seq::<char>::empty()) == 0);
    } else {
        let front = decimal(n / 10);
        lemma_decimal_value(n / 10);
        assert(decimal(n).drop_last() =~= front);
        assert forall|i: int| 0 <= i < decimal(n).len() implies '0' <= #[trigger] decimal(n)[i]
            <= '9' by {
            if i < front.len() {
                assert(decimal(n)[i] == front[i]);
            }
        }
    }
}

/// A number that is written in decimal, with or without a `+`, reads as itself if it
/// is within the limit, and else as none.
pub proof fn law_decimal_is_read(n: nat, max: nat)
    ensures
        unsigned_value(decimal(n), max) == if n <= max {
            Some(n)
        } else {
            None
        },
        unsigned_value(seq!['+'] + decimal(n), max) == unsigned_value(decimal(n), max),
{
    lemma_decimal_value(n);
    assert(decimal(n)[0] != '+');
    assert((seq!['+'] + decimal(n)).drop_first() =~= decimal(n));
}

proof fn lemma_leading_zero(s: Seq<char>)
    requires
        is_digits(s),
    ensures
        is_digits(seq!['0'] + s),
        digits_value(seq!['0'] + s) == digits_value(s),
    decreases s.len(),
{
    let t = seq!['0'] + s;
    assert forall|i: int| 0 <= i < t.len() implies '0' <= #[trigger] t[i] <= '9' by {
        if i > 0 {
            assert(t[i] == s[i - 1]);
        }
    }
    if s.len() == 1 {
        assert(t.drop_last() =~= seq!['0']);
        assert(seq!['0'].drop_last() =~= Seq::empty());
        assert(s.drop_last() =~= Seq::empty());
        assert(digits_value(Seq::<char>::empty()) == 0);
        assert(digits_value(seq!['0']) == 0);
    } else {
        let front = s.drop_last();
        assert forall|i: int| 0 <= i < front.len() implies '0' <= #[trigger] front[i] <= '9' by {
            assert(front[i] == s[i]);
        }
        lemma_leading_zero(front);
        assert(t.drop_last() =~= seq!['0'] + front);
    }
}

/// Leading zeros do not matter.
pub proof fn law_leading_zeros_are_ignored(s: Seq<char>, max: nat)
    requires
        is_digits(s),
    ensures
        unsigned_value(seq!['0'] + s, max) == unsigned_value(s, max),
{
    lemma_leading_zero(s);
    assert(s[0] != '+');
    assert((seq!['0'] + s)[0] == '0');
}

/// A text with a character that is no digit, other than a leading `+`, is no number,
/// nor is one without any digit.
pub proof fn law_other_texts_are_no_numbers(s: Seq<char>, max: nat, i: int)
    requires
        ({
            ||| s.len() == 0
            ||| s == seq!['+']
            ||| 0 <= i < s.len() && !('0' <= s[i] <= '9') && (i > 0 || s[i] != '+')
        }),
    ensures
        unsigned_value(s, max) is None,
{
    let digits = without_plus(s);
    if 0 <= i < s.len() && !('0' <= s[i] <= '9') {
        if s[0] == '+' {
            if i > 0 {
                assert(digits[i - 1] == s[i]);
            }
        } else {
            assert(digits[i] == s[i]);
        }
    }
}

/// The staging queues have the depth that is configured if that is a positive number
/// that a `usize` can hold, and the default depth in all other cases.
pub proof fn law_configured_depth_is_used(n: nat, text: Seq<char>)
    ensures
        0 < n <= usize::MAX ==> TxQueueLen::of(Some(decimal(n))).depth() == n,
        !(0 < n <= usize::MAX) ==> TxQueueLen::of(Some(decimal(n))).depth()
            == DEFAULT_TX_QUEUE_LEN,
        unsigned_value(text, usize::MAX as nat) is None ==> TxQueueLen::of(Some(text)).depth()
            == DEFAULT_TX_QUEUE_LEN,
        TxQueueLen::of(None).depth() == DEFAULT_TX_QUEUE_LEN,
        unsigned_value(text, usize::MAX as nat) matches Some(k) ==> (k > 0 ==> TxQueueLen::of(
            Some(text),
        ) == TxQueueLen::Configured(k as usize) && TxQueueLen::of(Some(text)).depth() == k),
{
    law_decimal_is_read(n, usize::MAX as nat);
}

/// A setting of the egress queues counts as configured, but never for less than one;
/// where it is missing or no number within the limit, the default holds.
pub proof fn law_configured_setting_is_used(n: nat, text: Seq<char>, default: nat, max: nat)
    requires
        default > 0,
    ensures
        0 < n <= max ==> setting_or(Some(decimal(n)), default, max) == n,
        setting_or(Some(decimal(0)), default, max) == 1,
        n > max ==> setting_or(Some(decimal(n)), default, max) == default,
        unsigned_value(text, max) is None ==> setting_or(Some(text), default, max) == default,
        unsigned_value(text, max) matches Some(k) ==> (k > 0 ==> setting_or(
            Some(text),
            default,
            max,
        ) == k),
        setting_or(None, default, max) == default,
{
    law_decimal_is_read(n, max);
    law_decimal_is_read(0, max);
}

/// A lower limit raises what is below it, and nothing else.
pub proof fn law_limit_raises(n: nat, low: nat)
    ensures
        n < low ==> at_least(n, low) == low,
        n >= low ==> at_least(n, low) == n,
{
}

} // verus!

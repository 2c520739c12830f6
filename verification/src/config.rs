//! The services' settings, and how the numeric ones are read from text.
use vstd::prelude::*;
use vstd::string::StrSliceExecFns;
use crate::text::{digit_str, number_text};

verus! {

#[derive(Debug, Clone)]
pub struct ServerConfig {
    pub allow_origin: String,
    pub environment: String,
}

#[derive(Debug, Clone)]
pub struct PGConfig {
    pub database_url: String,
    pub pool_size_each_service: u32,
}

#[derive(Debug, Clone)]
pub struct JWTConfig {
    pub jwt_secret_key: String,
    pub jwt_expiration_time: u64,
}

#[derive(Debug, Clone)]
pub struct RedisConfig {
    pub redis_url: String,
}

#[derive(Debug, Clone)]
pub struct NatsConfig {
    pub nats_url: String,
}

#[derive(Debug, Clone)]
pub struct SmtpConfig {
    pub smtp_host: String,
    pub smtp_username: String,
    pub smtp_password: String,
}

#[derive(Debug, Clone)]
pub struct RedpandaConfig {
    pub bootstrap_servers: String,
}

pub open spec fn is_digit(c: char) -> bool {
    '0' <= c && c <= '9'
}

/// The number written by a sequence of decimal digits.
pub open spec fn digits_value(s: Seq<char>) -> int
    decreases s.len(),
{
    if s.len() == 0 {
        0
    } else {
        digits_value(s.drop_last()) * 10 + (s.last() as int - '0' as int)
    }
}

/// The digits of an unsigned number's text: a leading `+` is allowed.
pub open spec fn unsigned_digits(s: Seq<char>) -> Seq<char> {
    if s.len() > 0 && s[0] == '+' {
        s.drop_first()
    } else {
        s
    }
}

/// What reading an unsigned integer no larger than `max` from `s` gives, as
/// `str::parse` reads it: an optional `+`, then at least one decimal digit
/// and nothing else, for a value that fits.
pub open spec fn parsed_unsigned(s: Seq<char>, max: int) -> Option<int> {
    let d = unsigned_digits(s);
    if d.len() > 0 && (forall|i: int| 0 <= i < d.len() ==> #[trigger] is_digit(d[i]))
        && digits_value(d) <= max {
        Some(digits_value(d))
    } else {
        None
    }
}

proof fn lemma_digits_prefix(d: Seq<char>, i: int)
    requires
        0 <= i < d.len(),
    ensures
        digits_value(d.take(i + 1)) == digits_value(d.take(i)) * 10 + (d[i] as int - '0' as int),
{
    assert(d.take(i + 1).drop_last() =~= d.take(i));
}

proof fn lemma_digits_nonneg(d: Seq<char>, j: int)
    requires
        0 <= j <= d.len(),
        forall|k: int| 0 <= k < d.len() ==> #[trigger] is_digit(d[k]),
    ensures
        digits_value(d.take(j)) >= 0,
    decreases j,
{
    if j == 0 {
        assert(d.take(0) =~= Seq::<char>::empty());
    } else {
        lemma_digits_prefix(d, j - 1);
        assert(is_digit(d[j - 1]));
        lemma_digits_nonneg(d, j - 1);
    }
}

proof fn lemma_digits_monotone(d: Seq<char>, i: int, j: int)
    requires
        0 <= i <= j <= d.len(),
        forall|k: int| 0 <= k < d.len() ==> #[trigger] is_digit(d[k]),
    ensures
        digits_value(d.take(i)) <= digits_value(d.take(j)),
    decreases j - i,
{
    if i < j {
        lemma_digits_prefix(d, j - 1);
        assert(is_digit(d[j - 1]));
        lemma_digits_nonneg(d, j - 1);
        lemma_digits_monotone(d, i, j - 1);
    }
}

proof fn lemma_digit_str(d: u64)
    requires
        d < 10,
    ensures
        digit_str(d)@.len() == 1,
        is_digit(digit_str(d)@[0]),
        digit_str(d)@[0] as int - '0' as int == d,
        digit_str(d)@[0] != '+',
{
    reveal_strlit("0");
    reveal_strlit("1");
    reveal_strlit("2");
    reveal_strlit("3");
    reveal_strlit("4");
    reveal_strlit("5");
    reveal_strlit("6");
    reveal_strlit("7");
    reveal_strlit("8");
    reveal_strlit("9");
}

/// The decimal text of a number reads back as that number: it is made of
/// digits only, starts with no sign, and their value is the number.
pub proof fn lemma_number_text_value(n: u64)
    ensures
        number_text(n).len() >= 1,
        number_text(n)[0] != '+',
        forall|i: int| 0 <= i < number_text(n).len() ==> #[trigger] is_digit(number_text(n)[i]),
        digits_value(number_text(n)) == n,
    decreases n,
{
    let s = number_text(n);
    if n < 10 {
        lemma_digit_str(n);
        assert(s.drop_last() =~= Seq::<char>::empty());
        assert(digits_value(s.drop_last()) == 0);
        assert(s.last() == s[0]);
        assert(digits_value(s) == digits_value(s.drop_last()) * 10 + (s.last() as int - '0' as int));
    } else {
        let p = number_text(n / 10);
        let d = digit_str(n % 10)@;
        lemma_number_text_value(n / 10);
        lemma_digit_str(n % 10);
        assert(s == p + d);
        assert(s.drop_last() =~= p);
        assert(s.last() == d[0]);
        assert forall|i: int| 0 <= i < s.len() implies #[trigger] is_digit(s[i]) by {
            if i < p.len() {
                assert(s[i] == p[i]);
            } else {
                assert(s[i] == d[0]);
            }
        }
        assert(s[0] == p[0]);
        assert(digits_value(s) == digits_value(s.drop_last()) * 10 + (s.last() as int - '0' as int));
        assert((n / 10) * 10 + n % 10 == n);
    }
}

/// Reading back what [`u64_text`] writes gives the number written.
pub proof fn law_parse_reads_printed(n: u64)
    ensures
        parsed_unsigned(number_text(n), u64::MAX as int) == Some(n as int),
{
    lemma_number_text_value(n);
    assert(unsigned_digits(number_text(n)) == number_text(n));
}

/// Two numbers with the same decimal text are equal.
pub proof fn law_number_text_injective(a: u64, b: u64)
    ensures
        number_text(a) == number_text(b) <==> a == b,
{
    lemma_number_text_value(a);
    lemma_number_text_value(b);
}

/// Reads an unsigned 64-bit integer.
pub fn parse_u64(s: &str) -> (r: Option<u64>)
    ensures
        parsed_unsigned(s@, u64::MAX as int) == match r {
            Some(x) => Some(x as int),
            None => None,
        },
{
    let n = s.unicode_len();
    let start: usize = if n > 0 && s.get_char(0) == '+' {
        1
    } else {
        0
    };
    let ghost d = unsigned_digits(s@);
    proof {
        assert(d =~= s@.subrange(start as int, n as int));
    }
    if start >= n {
        return None;
    }
    let mut value: u64 = 0;
    let mut i: usize = start;
    while i < n
        invariant
            start <= i <= n,
            n == s@.len(),
            d == unsigned_digits(s@),
            d =~= s@.subrange(start as int, n as int),
            forall|k: int| 0 <= k < i - start ==> #[trigger] is_digit(d[k]),
            value == digits_value(d.take(i - start)),
        decreases n - i,
    {
        let c = s.get_char(i);
        proof {
            assert(d[i - start] == c);
        }
        if c < '0' || c > '9' {
            proof {
                assert(!is_digit(d[i - start]));
            }
            return None;
        }
        let digit: u64 = (c as u32 - '0' as u32) as u64;
        proof {
            lemma_digits_prefix(d, i - start);
        }
        if value > (u64::MAX - digit) / 10 {
            proof {
                let j = (i - start + 1) as int;
                assert((value as int) * 10 + digit > u64::MAX) by (nonlinear_arith)
                    requires
                        value > (u64::MAX - digit) / 10,
                        digit <= 9,
                ;
                assert(digits_value(d.take(j)) > u64::MAX);
                if forall|k: int| 0 <= k < d.len() ==> #[trigger] is_digit(d[k]) {
                    lemma_digits_monotone(d, j, d.len() as int);
                    assert(d.take(d.len() as int) =~= d);
                }
            }
            return None;
        }
        value = value * 10 + digit;
        i = i + 1;
    }
    proof {
        assert(d.take(d.len() as int) =~= d);
    }
    Some(value)
}

/// Reads an unsigned 32-bit integer.
pub fn parse_u32(s: &str) -> (r: Option<u32>)
    ensures
        parsed_unsigned(s@, u32::MAX as int) == match r {
            Some(x) => Some(x as int),
            None => None,
        },
{
    match parse_u64(s) {
        Some(v) => if v <= u32::MAX as u64 {
            Some(v as u32)
        } else {
            None
        },
        None => None,
    }
}

impl PGConfig {
    /// The database settings from their texts: the pool size defaults to 1
    /// and must be a valid `u32` (`None` otherwise).
    pub fn from_values(database_url: String, pool_size: Option<String>) -> (r: Option<PGConfig>)
        ensures
            ({
                let text = match pool_size {
                    Some(p) => p@,
                    None => "1"@,
                };
                &&& parsed_unsigned(text, u32::MAX as int) == match r {
                    Some(c) => Some(c.pool_size_each_service as int),
                    None => None,
                }
                &&& r matches Some(c) ==> c.database_url == database_url
            }),
    {
        let parsed = match &pool_size {
            Some(p) => parse_u32(p.as_str()),
            None => parse_u32("1"),
        };
        match parsed {
            Some(n) => Some(PGConfig { database_url, pool_size_each_service: n }),
            None => None,
        }
    }
}

impl JWTConfig {
    /// The token settings from their texts: the lifetime must be a valid
    /// `u64` (`None` otherwise).
    pub fn from_values(jwt_secret_key: String, expiration: &str) -> (r: Option<JWTConfig>)
        ensures
            parsed_unsigned(expiration@, u64::MAX as int) == match r {
                Some(c) => Some(c.jwt_expiration_time as int),
                None => None,
            },
            r matches Some(c) ==> c.jwt_secret_key == jwt_secret_key,
    {
        match parse_u64(expiration) {
            Some(n) => Some(JWTConfig { jwt_secret_key, jwt_expiration_time: n }),
            None => None,
        }
    }
}

} // verus!

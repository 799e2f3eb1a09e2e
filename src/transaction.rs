//! Transactions and the record validator.
use vstd::prelude::*;

verus! {

/// The largest amount, in ten-thousandths, that the ledger holds: the widest
/// mantissa of `rust_decimal` (96 bits), so that every balance renders exactly
/// at four fractional digits.
pub const MAX_UNITS: i128 = 79228162514264337593543950335;

/// Number of fractional digits every amount is stored with.
pub const AMOUNT_SCALE: u32 = 4;

/// `10^n`.
pub open spec fn pow10(n: nat) -> int
    decreases n,
{
    if n == 0 {
        1
    } else {
        10 * pow10((n - 1) as nat)
    }
}

/// The field of a record that failed to parse.
#[derive(Clone, Copy, Debug, PartialEq, Eq, Structural)]
pub enum Field {
    Client,
    Tx,
    Amount,
}

/// Why a raw record was not turned into a transaction.
#[derive(Clone, Copy, Debug, PartialEq, Eq, Structural)]
pub enum ValidationError {
    /// The record does not have exactly four fields.
    MalformedRecord,
    /// A field is not a value of its type.
    MalformedField(Field),
    /// The amount carries more than four fractional digits.
    PrecisionExceeded,
    /// The type field names no known transaction type.
    UnknownTransactionType,
}

/// An exact decimal `mantissa * 10^-scale` as a whole number of
/// ten-thousandths, or why it is not an amount: a negative value or one past
/// [`MAX_UNITS`] is malformed, one with a non-zero digit past the fourth
/// fractional place exceeds the precision.
pub open spec fn amount_units_spec(mantissa: int, scale: nat) -> Result<int, ValidationError> {
    if mantissa < 0 {
        Err(ValidationError::MalformedField(Field::Amount))
    } else if scale <= 4 {
        let v = mantissa * pow10((4 - scale) as nat);
        if v > MAX_UNITS {
            Err(ValidationError::MalformedField(Field::Amount))
        } else {
            Ok(v)
        }
    } else if mantissa % pow10((scale - 4) as nat) != 0 {
        Err(ValidationError::PrecisionExceeded)
    } else {
        let v = mantissa / pow10((scale - 4) as nat);
        if v > MAX_UNITS {
            Err(ValidationError::MalformedField(Field::Amount))
        } else {
            Ok(v)
        }
    }
}

proof fn lemma_pow10_38()
    ensures
        pow10(38) == 100000000000000000000000000000000000000,
{
    reveal_with_fuel(pow10, 39);
}

proof fn lemma_pow10_positive(n: nat)
    ensures
        pow10(n) >= 1,
    decreases n,
{
    if n > 0 {
        lemma_pow10_positive((n - 1) as nat);
    }
}

proof fn lemma_pow10_monotonic(a: nat, b: nat)
    requires
        a <= b,
    ensures
        pow10(a) <= pow10(b),
    decreases b,
{
    if a < b {
        lemma_pow10_monotonic(a, (b - 1) as nat);
        lemma_pow10_positive((b - 1) as nat);
    }
}

/// `10^n` for `n <= 38`, the largest power of ten an `i128` holds.
fn power_of_ten(n: u32) -> (r: i128)
    requires
        n <= 38,
    ensures
        r == pow10(n as nat),
{
    let mut r: i128 = 1;
    let mut i: u32 = 0;
    while i < n
        invariant
            i <= n <= 38,
            r == pow10(i as nat),
        decreases n - i,
    {
        proof {
            lemma_pow10_monotonic((i + 1) as nat, 38);
            lemma_pow10_38();
            assert(pow10((i + 1) as nat) == 10 * pow10(i as nat));
            lemma_pow10_positive(i as nat);
        }
        r = r * 10;
        i = i + 1;
    }
    r
}

/// Converts the exact decimal `mantissa * 10^-scale` to ten-thousandths.
/// The result is exact: no digit is rounded away.
pub fn amount_units(mantissa: i128, scale: u32) -> (r: Result<i128, ValidationError>)
    ensures
        r == (match amount_units_spec(mantissa as int, scale as nat) {
            Ok(v) => Ok(v as i128),
            Err(e) => Err(e),
        }),
        r matches Ok(u) ==> 0 <= u <= MAX_UNITS && u * pow10(scale as nat) == mantissa * 10000,
{
    if mantissa < 0 {
        return Err(ValidationError::MalformedField(Field::Amount));
    }
    if scale <= 4 {
        let p = power_of_ten(4 - scale);
        proof {
            lemma_pow10_positive((4 - scale) as nat);
            lemma_pow10_add((4 - scale) as nat, scale as nat);
            reveal_with_fuel(pow10, 5);
        }
        if mantissa > MAX_UNITS {
            proof {
                assert(mantissa * p >= mantissa) by (nonlinear_arith)
                    requires
                        mantissa >= 0,
                        p >= 1,
                ;
            }
            return Err(ValidationError::MalformedField(Field::Amount));
        }
        proof {
            assert(mantissa * p <= MAX_UNITS * 10000) by (nonlinear_arith)
                requires
                    0 <= mantissa <= MAX_UNITS,
                    1 <= p <= 10000,
            ;
        }
        let v = mantissa * p;
        if v > MAX_UNITS {
            return Err(ValidationError::MalformedField(Field::Amount));
        }
        proof {
            assert(v * pow10(scale as nat) == mantissa * 10000) by (nonlinear_arith)
                requires
                    v == mantissa * p,
                    p * pow10(scale as nat) == 10000,
            ;
        }
        Ok(v)
    } else {
        let k: u32 = scale - 4;
        if k > 38 {
            proof {
                lemma_pow10_monotonic(39, k as nat);
                lemma_pow10_38();
                assert(pow10(39) == 10 * pow10(38));
                let p = pow10(k as nat);
                assert((mantissa as int) % p == mantissa) by (nonlinear_arith)
                    requires
                        0 <= mantissa < p,
                ;
                assert((mantissa as int) / p == 0) by (nonlinear_arith)
                    requires
                        0 <= mantissa < p,
                ;
            }
            if mantissa != 0 {
                return Err(ValidationError::PrecisionExceeded);
            }
            proof {
                assert(0 * pow10(scale as nat) == 0);
            }
            return Ok(0);
        }
        let p = power_of_ten(k);
        proof {
            lemma_pow10_positive(k as nat);
        }
        if mantissa % p != 0 {
            return Err(ValidationError::PrecisionExceeded);
        }
        let v = mantissa / p;
        if v > MAX_UNITS {
            return Err(ValidationError::MalformedField(Field::Amount));
        }
        proof {
            lemma_pow10_add(k as nat, 4);
            reveal_with_fuel(pow10, 5);
            assert(v * pow10(scale as nat) == mantissa * 10000) by (nonlinear_arith)
                requires
                    v == mantissa / p,
                    mantissa % p == 0,
                    p > 0,
                    pow10(scale as nat) == p * 10000,
            ;
        }
        Ok(v)
    }
}

proof fn lemma_pow10_add(a: nat, b: nat)
    ensures
        pow10(a + b) == pow10(a) * pow10(b),
    decreases a,
{
    if a > 0 {
        lemma_pow10_add((a - 1) as nat, b);
        assert(pow10(a + b) == 10 * pow10((a - 1 + b) as nat));
        assert(10 * (pow10((a - 1) as nat) * pow10(b)) == (10 * pow10((a - 1) as nat)) * pow10(b))
            by (nonlinear_arith);
    }
}

/// The five kinds of transaction.
#[derive(Clone, Copy, Debug, PartialEq, Eq, Structural)]
pub enum TransactionType {
    Deposit,
    Withdrawal,
    Dispute,
    Resolve,
    Chargeback,
}

impl TransactionType {
    /// Deposits and withdrawals move money and open a history entry.
    pub open spec fn is_movement(self) -> bool {
        self is Deposit || self is Withdrawal
    }
}

/// A validated transaction. `amount` is in ten-thousandths.
#[derive(Clone, Copy, Debug, PartialEq, Eq, Structural)]
pub struct Transaction {
    /// Arrival order, assigned on ingestion.
    pub seq_num: u32,
    pub tx_type: TransactionType,
    pub client_id: u16,
    pub tx_id: u32,
    pub amount: i128,
}

/// The kind named by a type field; both spellings of withdrawal are accepted.
pub open spec fn tx_type_spec(s: Seq<char>) -> Option<TransactionType> {
    if s == "withdrawal"@ || s == "withdraw"@ {
        Some(TransactionType::Withdrawal)
    } else if s == "deposit"@ {
        Some(TransactionType::Deposit)
    } else if s == "dispute"@ {
        Some(TransactionType::Dispute)
    } else if s == "resolve"@ {
        Some(TransactionType::Resolve)
    } else if s == "chargeback"@ {
        Some(TransactionType::Chargeback)
    } else {
        None
    }
}

/// Whether two strings hold the same characters.
fn text_equals(s: &str, t: &str) -> (r: bool)
    ensures
        r == (s@ == t@),
{
    let n: usize = s.unicode_len();
    if n != t.unicode_len() {
        return false;
    }
    let mut i: usize = 0;
    while i < n
        invariant
            n == s@.len() == t@.len(),
            i <= n,
            s@.subrange(0, i as int) == t@.subrange(0, i as int),
        decreases n - i,
    {
        if s.get_char(i) != t.get_char(i) {
            return false;
        }
        assert(s@.subrange(0, i + 1) == s@.subrange(0, i as int).push(s@[i as int]));
        assert(t@.subrange(0, i + 1) == t@.subrange(0, i as int).push(t@[i as int]));
        i = i + 1;
    }
    assert(s@ == s@.subrange(0, n as int));
    assert(t@ == t@.subrange(0, n as int));
    true
}

/// Reads the type field of a record.
pub fn translate_trx_type(trx_type: &str) -> (r: Result<TransactionType, ValidationError>)
    ensures
        r == (match tx_type_spec(trx_type@) {
            Some(k) => Ok(k),
            None => Err(ValidationError::UnknownTransactionType),
        }),
{
    if text_equals(trx_type, "withdrawal") || text_equals(trx_type, "withdraw") {
        Ok(TransactionType::Withdrawal)
    } else if text_equals(trx_type, "deposit") {
        Ok(TransactionType::Deposit)
    } else if text_equals(trx_type, "dispute") {
        Ok(TransactionType::Dispute)
    } else if text_equals(trx_type, "resolve") {
        Ok(TransactionType::Resolve)
    } else if text_equals(trx_type, "chargeback") {
        Ok(TransactionType::Chargeback)
    } else {
        Err(ValidationError::UnknownTransactionType)
    }
}

pub open spec fn is_ascii_digit(c: char) -> bool {
    '0' <= c && c <= '9'
}

/// The value of a string of decimal digits.
pub open spec fn digits_value(d: Seq<char>) -> int
    decreases d.len(),
{
    if d.len() == 0 {
        0
    } else {
        10 * digits_value(d.drop_last()) + (d.last() as int - '0' as int)
    }
}

/// The value of an unsigned integer written as an optional `+` followed by
/// one or more ASCII digits, with nothing around them.
pub open spec fn unsigned_text_value(s: Seq<char>) -> Option<int> {
    let d = if s.len() > 0 && s[0] == '+' {
        s.drop_first()
    } else {
        s
    };
    if d.len() > 0 && (forall|i: int| 0 <= i < d.len() ==> is_ascii_digit(#[trigger] d[i])) {
        Some(digits_value(d))
    } else {
        None
    }
}

/// `unsigned_text_value` when it is at most `max`.
pub open spec fn bounded_text_value(s: Seq<char>, max: int) -> Option<int> {
    match unsigned_text_value(s) {
        Some(v) => if v <= max {
            Some(v)
        } else {
            None
        },
        None => None,
    }
}

/// Relies on `u16::from_str`: it accepts an optional `+` and ASCII digits
/// whose value fits in a `u16`, and rejects everything else.
#[verifier::external_body]
fn parse_u16(s: &str) -> (r: Option<u16>)
    ensures
        r matches Some(v) <==> bounded_text_value(s@, u16::MAX as int) is Some,
        r matches Some(v) ==> bounded_text_value(s@, u16::MAX as int) == Some(v as int),
{
    s.parse::<u16>().ok()
}

/// Relies on `u32::from_str`: it accepts an optional `+` and ASCII digits
/// whose value fits in a `u32`, and rejects everything else.
#[verifier::external_body]
fn parse_u32(s: &str) -> (r: Option<u32>)
    ensures
        r matches Some(v) <==> bounded_text_value(s@, u32::MAX as int) is Some,
        r matches Some(v) ==> bounded_text_value(s@, u32::MAX as int) == Some(v as int),
{
    s.parse::<u32>().ok()
}

/// The exact decimal that `rust_decimal` reads from a string, as its
/// mantissa and scale.
pub uninterp spec fn decimal_parts_of(s: Seq<char>) -> Option<(i128, u32)>;

/// Relies on `rust_decimal::Decimal::from_str` to read an exact decimal, then
/// on `Decimal::mantissa` and `Decimal::scale` to hand its value out as
/// `mantissa * 10^-scale`.
#[verifier::external_body]
fn parse_decimal(s: &str) -> (r: Option<(i128, u32)>)
    ensures
        r == decimal_parts_of(s@),
{
    match <rust_decimal::Decimal as std::str::FromStr>::from_str(s) {
        Ok(d) => Some((d.mantissa(), d.scale())),
        Err(_) => None,
    }
}

/// The characters of each field of a raw record.
pub open spec fn fields_view(record: Seq<String>) -> Seq<Seq<char>> {
    record.map_values(|f: String| f@)
}

/// The transaction that a record of four fields
/// (type, client, tx, amount) stands for, stamped with `seq_num`, or the
/// first check it fails, in that order of fields.
pub open spec fn row_spec(record: Seq<Seq<char>>, seq_num: u32) -> Result<
    Transaction,
    ValidationError,
> {
    if record.len() != 4 {
        Err(ValidationError::MalformedRecord)
    } else {
        match tx_type_spec(record[0]) {
            None => Err(ValidationError::UnknownTransactionType),
            Some(k) => match bounded_text_value(record[1], u16::MAX as int) {
                None => Err(ValidationError::MalformedField(Field::Client)),
                Some(c) => match bounded_text_value(record[2], u32::MAX as int) {
                    None => Err(ValidationError::MalformedField(Field::Tx)),
                    Some(t) => match decimal_parts_of(record[3]) {
                        None => Err(ValidationError::MalformedField(Field::Amount)),
                        Some((m, e)) => match amount_units_spec(m as int, e as nat) {
                            Err(err) => Err(err),
                            Ok(u) => Ok(
                                Transaction {
                                    seq_num,
                                    tx_type: k,
                                    client_id: c as u16,
                                    tx_id: t as u32,
                                    amount: u as i128,
                                },
                            ),
                        },
                    },
                },
            },
        }
    }
}

/// Validates one raw record; it has no side effects.
pub fn process_row(record: &Vec<String>, seq_num: u32) -> (r: Result<Transaction, ValidationError>)
    ensures
        r == row_spec(fields_view(record@), seq_num),
{
    if record.len() != 4 {
        return Err(ValidationError::MalformedRecord);
    }
    proof {
        assert(fields_view(record@)[0] == record@[0]@);
        assert(fields_view(record@)[1] == record@[1]@);
        assert(fields_view(record@)[2] == record@[2]@);
        assert(fields_view(record@)[3] == record@[3]@);
    }
    let tx_type = translate_trx_type(record[0].as_str())?;
    let client_id = match parse_u16(record[1].as_str()) {
        Some(c) => c,
        None => return Err(ValidationError::MalformedField(Field::Client)),
    };
    let tx_id = match parse_u32(record[2].as_str()) {
        Some(t) => t,
        None => return Err(ValidationError::MalformedField(Field::Tx)),
    };
    let (mantissa, scale) = match parse_decimal(record[3].as_str()) {
        Some(parts) => parts,
        None => return Err(ValidationError::MalformedField(Field::Amount)),
    };
    let amount = amount_units(mantissa, scale)?;
    Ok(Transaction { seq_num, tx_type, client_id, tx_id, amount })
}

} // verus!

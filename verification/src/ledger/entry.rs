//! Entry: typed representation of a ledger transaction.
//!
//! A raw row is first read into a `WireEntry`, close to the input format, with
//! an optional amount. `Entry::try_from` then validates it once: deposits and
//! withdrawals need a positive amount, disputes, resolves and chargebacks must
//! carry none. Rows that fail become `EntryValidateError`s, which go to the
//! dead-letter queue and never reach accounts.

use vstd::prelude::*;

use crate::ledger::account::ClientId;
use crate::ledger::amount::{Amount, ParseAmountError};
use crate::ledger::decimal::{
    decimal_from_str, digits_value, is_decimal_digit, plain_decimal_parts, unsigned_decimal_parts, MAX_MANTISSA,
};

verus! {

/// Transaction type, as declared in the input.
#[derive(Debug, Copy, Clone, PartialEq, Eq, Structural)]
pub enum EntryType {
    Deposit,
    Withdrawal,
    Dispute,
    Resolve,
    Chargeback,
}

/// How a transaction type is written in the input: lower case.
pub open spec fn entry_type_text(kind: EntryType) -> Seq<char> {
    match kind {
        EntryType::Deposit => "deposit"@,
        EntryType::Withdrawal => "withdrawal"@,
        EntryType::Dispute => "dispute"@,
        EntryType::Resolve => "resolve"@,
        EntryType::Chargeback => "chargeback"@,
    }
}

/// The name of the variant, as `Debug` prints it.
pub open spec fn entry_type_name(kind: EntryType) -> Seq<char> {
    match kind {
        EntryType::Deposit => "Deposit"@,
        EntryType::Withdrawal => "Withdrawal"@,
        EntryType::Dispute => "Dispute"@,
        EntryType::Resolve => "Resolve"@,
        EntryType::Chargeback => "Chargeback"@,
    }
}

impl EntryType {
    /// A deposit or a withdrawal: a transaction that moves funds and carries an
    /// amount.
    pub open spec fn moves_funds(self) -> bool {
        self is Deposit || self is Withdrawal
    }

    /// The type as written in the input (`"deposit"`, ...).
    pub fn to_string(&self) -> (r: String)
        ensures
            r@ == entry_type_text(*self),
    {
        match self {
            EntryType::Deposit => String::from_str("deposit"),
            EntryType::Withdrawal => String::from_str("withdrawal"),
            EntryType::Dispute => String::from_str("dispute"),
            EntryType::Resolve => String::from_str("resolve"),
            EntryType::Chargeback => String::from_str("chargeback"),
        }
    }

    /// The name of the variant (`"Deposit"`, ...).
    pub fn name(&self) -> (r: String)
        ensures
            r@ == entry_type_name(*self),
    {
        match self {
            EntryType::Deposit => String::from_str("Deposit"),
            EntryType::Withdrawal => String::from_str("Withdrawal"),
            EntryType::Dispute => String::from_str("Dispute"),
            EntryType::Resolve => String::from_str("Resolve"),
            EntryType::Chargeback => String::from_str("Chargeback"),
        }
    }
}

/// A row as read from the input, before validation.
#[derive(Debug)]
pub struct WireEntry {
    pub kind: EntryType,
    pub client_id: u16,
    pub tx: u32,
    pub amount: Option<Amount>,
}

/// A validated ledger entry: funds entries carry an amount, control entries
/// carry none.
#[derive(Debug)]
pub enum Entry {
    Funds { kind: EntryType, client_id: ClientId, tx: u32, amount: Amount },
    Control { kind: EntryType, client_id: ClientId, tx: u32 },
}

impl Entry {
    #[verifier::allow_in_spec]
    pub fn kind(&self) -> EntryType
        returns
            (match self {
                Entry::Funds { kind, .. } => *kind,
                Entry::Control { kind, .. } => *kind,
            }),
    {
        match self {
            Entry::Funds { kind, .. } => *kind,
            Entry::Control { kind, .. } => *kind,
        }
    }

    #[verifier::allow_in_spec]
    pub fn client_id(&self) -> ClientId
        returns
            (match self {
                Entry::Funds { client_id, .. } => *client_id,
                Entry::Control { client_id, .. } => *client_id,
            }),
    {
        match self {
            Entry::Funds { client_id, .. } => *client_id,
            Entry::Control { client_id, .. } => *client_id,
        }
    }

    #[verifier::allow_in_spec]
    pub fn tx(&self) -> u32
        returns
            (match self {
                Entry::Funds { tx, .. } => *tx,
                Entry::Control { tx, .. } => *tx,
            }),
    {
        match self {
            Entry::Funds { tx, .. } => *tx,
            Entry::Control { tx, .. } => *tx,
        }
    }

    #[verifier::allow_in_spec]
    pub fn amount(&self) -> Option<Amount>
        returns
            (match self {
                Entry::Funds { amount, .. } => Some(*amount),
                Entry::Control { .. } => None,
            }),
    {
        match self {
            Entry::Funds { amount, .. } => Some(*amount),
            Entry::Control { .. } => None,
        }
    }
}

/// White space as Unicode's `White_Space` property has it.
pub open spec fn is_white_space(c: char) -> bool {
    let u = c as u32;
    ||| 0x9 <= u <= 0xD
    ||| u == 0x20
    ||| u == 0x85
    ||| u == 0xA0
    ||| u == 0x1680
    ||| 0x2000 <= u <= 0x200A
    ||| u == 0x2028
    ||| u == 0x2029
    ||| u == 0x202F
    ||| u == 0x205F
    ||| u == 0x3000
}

/// `text` without the white space at its start.
pub open spec fn trim_start_spec(text: Seq<char>) -> Seq<char>
    decreases text.len(),
{
    if text.len() > 0 && is_white_space(text[0]) {
        trim_start_spec(text.drop_first())
    } else {
        text
    }
}

/// `text` without the white space at its end.
pub open spec fn trim_end_spec(text: Seq<char>) -> Seq<char>
    decreases text.len(),
{
    if text.len() > 0 && is_white_space(text.last()) {
        trim_end_spec(text.drop_last())
    } else {
        text
    }
}

/// `text` without the white space around it.
pub open spec fn trimmed(text: Seq<char>) -> Seq<char> {
    trim_end_spec(trim_start_spec(text))
}

/// Calls `str::trim`. Claimed of it, as its documentation says: leading and
/// trailing white space, in the sense of Unicode's `White_Space` property, is
/// removed, and nothing else.
#[verifier::external_body]
fn trim(text: &str) -> (r: &str)
    ensures
        r@ == trimmed(text@),
{
    text.trim()
}

/// Reads a trimmed amount field: empty text is no amount, any other text
/// must parse as a decimal.
pub fn amount_field_value(text: &str) -> (r: Result<Option<Amount>, ParseAmountError>)
    ensures
        amount_field_spec(text@, r),
{
    if text.unicode_len() == 0 {
        Ok(None)
    } else {
        match Amount::parse(text) {
            Ok(a) => Ok(Some(a)),
            Err(e) => Err(e),
        }
    }
}

/// What reading a trimmed amount field gives.
pub open spec fn amount_field_spec(text: Seq<char>, r: Result<Option<Amount>, ParseAmountError>) -> bool {
    &&& text.len() == 0 ==> (r matches Ok(None))
    &&& text.len() > 0 ==> match r {
        Ok(Some(a)) => decimal_from_str(text) == Ok::<(i128, u32), Seq<char>>((a.spec_mantissa(), a.spec_scale())),
        Ok(None) => false,
        Err(e) => decimal_from_str(text) == Err::<(i128, u32), Seq<char>>(e.message@),
    }
    &&& plain_decimal_parts(text) matches Some(p) ==> (-MAX_MANTISSA <= p.0 <= MAX_MANTISSA ==> (r matches Ok(Some(a))
        && a.spec_mantissa() == p.0 && a.spec_scale() == p.1))
}

/// Reads an optional amount field.
///
/// A missing field is no amount; a present one is trimmed and read by
/// `amount_field_value`.
pub fn de_amount_opt(field: Option<&str>) -> (r: Result<Option<Amount>, ParseAmountError>)
    ensures
        match field {
            None => r matches Ok(None),
            Some(text) => amount_field_spec(trimmed(text@), r),
        },
{
    match field {
        None => Ok(None),
        Some(text) => amount_field_value(trim(text)),
    }
}

/// Why a row fails validation.
#[derive(Debug, PartialEq, Eq, Structural)]
pub enum EntryValidateError {
    MissingAmount(EntryType),
    AmountNotAllowed(EntryType),
    NegativeAmount,
    ZeroAmount,
}

/// The message of a validation error.
pub open spec fn entry_validate_error_text(e: EntryValidateError) -> Seq<char> {
    match e {
        EntryValidateError::MissingAmount(kind) => "missing amount for "@ + entry_type_text(kind),
        EntryValidateError::AmountNotAllowed(kind) => "amount not allowed for "@ + entry_type_text(kind),
        EntryValidateError::NegativeAmount => "negative amount"@,
        EntryValidateError::ZeroAmount => "zero amount"@,
    }
}

impl EntryValidateError {
    /// The error's message.
    pub fn to_string(&self) -> (r: String)
        ensures
            r@ == entry_validate_error_text(*self),
    {
        match self {
            EntryValidateError::MissingAmount(kind) => {
                let mut s = String::from_str("missing amount for ");
                s.append(kind.to_string().as_str());
                s
            },
            EntryValidateError::AmountNotAllowed(kind) => {
                let mut s = String::from_str("amount not allowed for ");
                s.append(kind.to_string().as_str());
                s
            },
            EntryValidateError::NegativeAmount => String::from_str("negative amount"),
            EntryValidateError::ZeroAmount => String::from_str("zero amount"),
        }
    }
}

/// What validation makes of a row: funds entries need an amount above zero,
/// control entries must have none; the type, client and transaction id are
/// kept.
pub open spec fn validate(wire: WireEntry) -> Result<Entry, EntryValidateError> {
    if wire.kind.moves_funds() {
        match wire.amount {
            None => Err(EntryValidateError::MissingAmount(wire.kind)),
            Some(amount) => if amount@ < 0 {
                Err(EntryValidateError::NegativeAmount)
            } else if amount@ == 0 {
                Err(EntryValidateError::ZeroAmount)
            } else {
                Ok(Entry::Funds { kind: wire.kind, client_id: wire.client_id, tx: wire.tx, amount })
            },
        }
    } else {
        match wire.amount {
            Some(_) => Err(EntryValidateError::AmountNotAllowed(wire.kind)),
            None => Ok(Entry::Control { kind: wire.kind, client_id: wire.client_id, tx: wire.tx }),
        }
    }
}

impl Entry {
    /// What validation guarantees of an entry: a deposit or withdrawal
    /// carries an amount above zero, any other type carries none.
    pub open spec fn well_formed(self) -> bool {
        match self {
            Entry::Funds { kind, amount, .. } => kind.moves_funds() && amount@ > 0,
            Entry::Control { kind, .. } => !kind.moves_funds(),
        }
    }

    /// Validates a raw row into an entry.
    pub fn try_from(wire_entry: WireEntry) -> (r: Result<Entry, EntryValidateError>)
        ensures
            r == validate(wire_entry),
            r matches Ok(e) ==> e.well_formed(),
    {
        match wire_entry.kind {
            EntryType::Deposit | EntryType::Withdrawal => {
                let amount = match wire_entry.amount {
                    Some(a) => a,
                    None => {
                        return Err(EntryValidateError::MissingAmount(wire_entry.kind));
                    },
                };
                if amount.is_sign_negative() {
                    return Err(EntryValidateError::NegativeAmount);
                }
                if amount.is_zero() {
                    return Err(EntryValidateError::ZeroAmount);
                }
                Ok(
                    Entry::Funds {
                        kind: wire_entry.kind,
                        client_id: wire_entry.client_id,
                        tx: wire_entry.tx,
                        amount,
                    },
                )
            },
            _ => {
                if wire_entry.amount.is_some() {
                    return Err(EntryValidateError::AmountNotAllowed(wire_entry.kind));
                }
                Ok(Entry::Control { kind: wire_entry.kind, client_id: wire_entry.client_id, tx: wire_entry.tx })
            },
        }
    }
}

/// Validation keeps what the row says: an entry made from a row has the
/// row's type, client, transaction id and amount, and a row is accepted
/// exactly when it is a deposit or withdrawal with an amount above zero, or a
/// dispute, resolve or chargeback with no amount. A refused deposit or
/// withdrawal is refused for its missing, negative or zero amount, in that
/// order; a refused control row for carrying an amount.
pub proof fn law_validation_keeps_the_row(w: WireEntry)
    ensures
        validate(w) matches Ok(e) ==> e.kind() == w.kind && e.client_id() == w.client_id && e.tx() == w.tx
            && e.amount() == w.amount,
        validate(w) is Ok <==> if w.kind == EntryType::Deposit || w.kind == EntryType::Withdrawal {
            w.amount matches Some(a) && a@ > 0
        } else {
            w.amount is None
        },
        (w.kind == EntryType::Deposit || w.kind == EntryType::Withdrawal) ==> {
            &&& w.amount is None ==> validate(w) == Err::<Entry, EntryValidateError>(EntryValidateError::MissingAmount(w.kind))
            &&& (w.amount matches Some(a) && a@ < 0) ==> validate(w) == Err::<Entry, EntryValidateError>(EntryValidateError::NegativeAmount)
            &&& (w.amount matches Some(a) && a@ == 0) ==> validate(w) == Err::<Entry, EntryValidateError>(EntryValidateError::ZeroAmount)
        },
        !(w.kind == EntryType::Deposit || w.kind == EntryType::Withdrawal) && w.amount is Some ==> validate(w)
            == Err::<Entry, EntryValidateError>(EntryValidateError::AmountNotAllowed(w.kind)),
{
}

/// An amount field is read as the decimal its text writes: an empty field is
/// no amount, and a plainly written decimal whose digits fit in 96 bits gives
/// the amount with exactly those digits, its sign included, at the scale of
/// its fractional digits. In particular a text that starts with `-` never
/// reads as an amount above zero.
pub proof fn law_amount_field_reads_the_decimal(text: Seq<char>, r: Result<Option<Amount>, ParseAmountError>)
    requires
        amount_field_spec(text, r),
    ensures
        text.len() == 0 ==> r matches Ok(None),
        plain_decimal_parts(text) matches Some(p) ==> (-MAX_MANTISSA <= p.0 <= MAX_MANTISSA ==> (r matches Ok(
            Some(a),
        ) && a.spec_mantissa() == p.0 && a.spec_scale() == p.1)),
        plain_decimal_parts(text) matches Some(p) ==> (text[0] == '-' && -MAX_MANTISSA <= p.0 <= MAX_MANTISSA ==> (r matches Ok(
            Some(a),
        ) && a.spec_mantissa() <= 0)),
{
    if plain_decimal_parts(text) is Some && text[0] == '-' {
        let body = text.drop_first();
        if body.contains('.') {
            let i = body.index_of('.');
            lemma_digits_value_nonnegative(body.subrange(0, i) + body.subrange(i + 1, body.len() as int));
        } else {
            lemma_digits_value_nonnegative(body);
        }
    }
}

/// The number a run of digits writes is not below zero.
proof fn lemma_digits_value_nonnegative(digits: Seq<char>)
    requires
        forall|i: int| 0 <= i < digits.len() ==> is_decimal_digit(#[trigger] digits[i]),
    ensures
        digits_value(digits) >= 0,
    decreases digits.len(),
{
    if digits.len() > 0 {
        assert(is_decimal_digit(digits[digits.len() - 1]));
        lemma_digits_value_nonnegative(digits.drop_last());
    }
}

} // verus!

//! Conversion of one imported statement row into a transaction record:
//! date and amount parsing, the content-derived stable identifier, the
//! property extraction, and the hand-over to the classification resolver.

use vstd::prelude::*;
use vstd::string::*;
use sha2::Digest;
use crate::errors::LedgerError;
use crate::extract::extract_spec;
use crate::models::{BankTransaction, Date, DebitOrCredit, IngTransaction, opt_view};
use crate::props::{name_key, strip_ccv, strip_hash, tag_key, upsert, DescriptionProperties};
use crate::repos::{AccountsRepository, CostCentersRepository, RelationsRepository};
use crate::resolve::{classify, classify_spec};
use crate::text::str_eq;

verus! {

/// The calendar date a compact year-month-day text denotes, if any, as
/// plain year, month and day numbers.
pub uninterp spec fn date_of(s: Seq<char>) -> Option<(int, int, int)>;

/// Relies on chrono::NaiveDate::parse_from_str with the compact
/// year-month-day format: the result is a function of the text alone, and
/// a parsed date is a valid calendar date.
#[verifier::external_body]
pub fn parse_date_yyyymmdd(s: &str) -> (r: Option<Date>)
    ensures
        match r {
            Some(d) => date_of(s@) == Some((d.year as int, d.month as int, d.day as int)) && 1
                <= d.month <= 12 && 1 <= d.day <= 31,
            None => date_of(s@) is None,
        },
{
    match chrono::NaiveDate::parse_from_str(s, "%Y%m%d") {
        Ok(d) => Some(
            Date {
                year: chrono::Datelike::year(&d),
                month: chrono::Datelike::month(&d),
                day: chrono::Datelike::day(&d),
            },
        ),
        Err(_) => None,
    }
}

/// The SHA-256 digest of a text's bytes.
pub uninterp spec fn sha256_of(s: Seq<char>) -> Seq<u8>;

/// Relies on sha2::Sha256::digest: a pure function of the input bytes
/// producing a 32-byte digest.
#[verifier::external_body]
pub fn sha256_bytes(s: &str) -> (r: Vec<u8>)
    ensures
        r@ == sha256_of(s@),
        r@.len() == 32,
{
    sha2::Sha256::digest(s.as_bytes()).to_vec()
}

/// One lower-case hex digit.
pub open spec fn hex_digit(n: u8) -> char {
    if n < 10 {
        ((n + 48) as char)
    } else {
        ((n + 87) as char)
    }
}

/// The lower-case hex encoding of a byte string, high nibble first.
pub open spec fn hex_of(b: Seq<u8>) -> Seq<char> {
    Seq::new(
        b.len() * 2,
        |i: int| if i % 2 == 0 {
            hex_digit(b[i / 2] / 16)
        } else {
            hex_digit(b[i / 2] % 16)
        },
    )
}

/// Relies on base16ct::lower::encode_string: two lower-case hex digits
/// per byte, high nibble first.
#[verifier::external_body]
pub fn hex_lower(b: &Vec<u8>) -> (r: String)
    ensures
        r@ == hex_of(b@),
{
    base16ct::lower::encode_string(b.as_slice())
}

/// An ASCII decimal digit.
pub open spec fn is_digit(c: char) -> bool {
    '0' <= c && c <= '9'
}

pub open spec fn digit_val(c: char) -> int {
    (c as u32) - 48
}

pub open spec fn all_digits(s: Seq<char>, i: int, j: int) -> bool {
    forall|k: int| i <= k < j ==> is_digit(#[trigger] s[k])
}

/// The number the digits `s[i..j]` denote, most significant first.
pub open spec fn digits_val(s: Seq<char>, i: int, j: int) -> int
    decreases j - i,
{
    if j <= i {
        0
    } else {
        digits_val(s, i, j - 1) * 10 + digit_val(s[j - 1])
    }
}

pub open spec fn pow10(n: nat) -> int
    decreases n,
{
    if n == 0 {
        1
    } else {
        10 * pow10((n - 1) as nat)
    }
}

proof fn lemma_digits_val_bound(s: Seq<char>, i: int, j: int)
    requires
        i <= j,
        all_digits(s, i, j),
    ensures
        0 <= digits_val(s, i, j) < pow10((j - i) as nat),
    decreases j - i,
{
    if j <= i {
    } else {
        lemma_digits_val_bound(s, i, j - 1);
        assert(is_digit(s[j - 1]));
        assert(digit_val(s[j - 1]) <= 9);
    }
}

proof fn lemma_pow10_bound(n: nat)
    requires
        n <= 15,
    ensures
        pow10(n) <= 1000000000000000,
    decreases n,
{
    reveal_with_fuel(pow10, 17);
    if n == 0 {
    } else {
        lemma_pow10_mono((n - 1) as nat, 14);
    }
}

proof fn lemma_pow10_mono(a: nat, b: nat)
    requires
        a <= b,
    ensures
        pow10(a) <= pow10(b),
        pow10(a) >= 1,
    decreases b,
{
    if b == 0 {
    } else if a == b {
        lemma_pow10_mono((a - 1) as nat, (b - 1) as nat);
    } else {
        lemma_pow10_mono(a, (b - 1) as nat);
    }
}

/// The first decimal separator at or after `i`, or the length when there
/// is none.
pub open spec fn first_sep(s: Seq<char>, i: int) -> int
    decreases s.len() - i,
{
    if i < 0 || i >= s.len() {
        s.len() as int
    } else if s[i] == ',' || s[i] == '.' {
        i
    } else {
        first_sep(s, i + 1)
    }
}

/// The amount a signed decimal text denotes, in cents: an optional minus,
/// a nonempty run of at most fifteen digits, and optionally a comma or
/// dot followed by one or two fraction digits.
pub open spec fn amount_cents_spec(s: Seq<char>) -> Option<int> {
    let b: int = if s.len() > 0 && s[0] == '-' {
        1
    } else {
        0
    };
    let p = first_sep(s, b);
    if !(b < p && all_digits(s, b, p) && p - b <= 15) {
        None
    } else {
        let int_cents = digits_val(s, b, p) * 100;
        if p == s.len() {
            Some(
                if b == 1 {
                    -int_cents
                } else {
                    int_cents
                },
            )
        } else {
            let fl = s.len() - (p + 1);
            if !(1 <= fl <= 2 && all_digits(s, p + 1, s.len() as int)) {
                None
            } else {
                let frac = digits_val(s, p + 1, s.len() as int) * (
                if fl == 1 {
                    10int
                } else {
                    1int
                });
                let total = int_cents + frac;
                Some(
                    if b == 1 {
                        -total
                    } else {
                        total
                    },
                )
            }
        }
    }
}

fn read_digits(s: &str, from: usize, to: usize, n: usize) -> (r: Option<i64>)
    requires
        n == s@.len(),
        from <= to <= n,
        to - from <= 15,
    ensures
        match r {
            Some(v) => all_digits(s@, from as int, to as int) && v == digits_val(
                s@,
                from as int,
                to as int,
            ) && 0 <= v < 1000000000000000,
            None => !all_digits(s@, from as int, to as int),
        },
{
    let mut v: i64 = 0;
    let mut i: usize = from;
    while i < to
        invariant
            s@.len() == n,
            from <= i <= to <= n,
            to - from <= 15,
            all_digits(s@, from as int, i as int),
            v == digits_val(s@, from as int, i as int),
            0 <= v < pow10((i - from) as nat),
        decreases to - i,
    {
        let c: char = s.get_char(i);
        if !('0' <= c && c <= '9') {
            return None;
        }
        proof {
            lemma_pow10_bound((i - from) as nat);
            vstd::utf8::char_is_scalar(c);
        }
        let d: u32 = (c as u32) - 48;
        v = v * 10 + (d as i64);
        i = i + 1;
    }
    proof {
        lemma_digits_val_bound(s@, from as int, to as int);
        lemma_pow10_bound((to - from) as nat);
    }
    Some(v)
}

/// Parse a signed decimal amount text, comma or dot separated, into
/// cents.
pub fn parse_amount_cents(s: &str) -> (r: Option<i64>)
    ensures
        match r {
            Some(v) => amount_cents_spec(s@) == Some(v as int) && -200000000000000000 <= v
                <= 200000000000000000,
            None => amount_cents_spec(s@) is None,
        },
{
    let n: usize = s.unicode_len();
    let b: usize = if n > 0 && s.get_char(0) == '-' {
        1
    } else {
        0
    };
    // Find the separator.
    let mut p: usize = b;
    while p < n && !(s.get_char(p) == ',' || s.get_char(p) == '.')
        invariant
            s@.len() == n,
            b <= p <= n,
            first_sep(s@, b as int) == first_sep(s@, p as int),
        decreases n - p,
    {
        p = p + 1;
    }
    if !(b < p) || p - b > 15 {
        return None;
    }
    let int_part: i64 = match read_digits(s, b, p, n) {
        Some(v) => v,
        None => {
            return None;
        },
    };
    let int_cents: i64 = int_part * 100;
    if p == n {
        return Some(
            if b == 1 {
                -int_cents
            } else {
                int_cents
            },
        );
    }
    let fl: usize = n - (p + 1);
    if fl < 1 || fl > 2 {
        return None;
    }
    let frac_digits: i64 = match read_digits(s, p + 1, n, n) {
        Some(v) => v,
        None => {
            return None;
        },
    };
    let frac: i64 = if fl == 1 {
        frac_digits * 10
    } else {
        frac_digits
    };
    proof {
        lemma_digits_val_bound(s@, p as int + 1, n as int);
        reveal_with_fuel(pow10, 3);
    }
    let total: i64 = int_cents + frac;
    Some(
        if b == 1 {
            -total
        } else {
            total
        },
    )
}

/// The bank's transaction-kind codes.
#[derive(Debug, Clone, Copy, PartialEq, Eq, Structural)]
pub enum TransactionCode {
    Girotel,
    ATM,
    PayTerminal,
    Other,
    IDeal,
    Collect,
    Giro,
    Transfer,
}

/// The kind a two-letter transaction code denotes.
pub open spec fn code_of(s: Seq<char>) -> Option<TransactionCode> {
    if s == "GT"@ {
        Some(TransactionCode::Girotel)
    } else if s == "GM"@ {
        Some(TransactionCode::ATM)
    } else if s == "BA"@ {
        Some(TransactionCode::PayTerminal)
    } else if s == "DV"@ {
        Some(TransactionCode::Other)
    } else if s == "ID"@ {
        Some(TransactionCode::IDeal)
    } else if s == "IC"@ {
        Some(TransactionCode::Collect)
    } else if s == "VZ"@ {
        Some(TransactionCode::Giro)
    } else if s == "OV"@ {
        Some(TransactionCode::Transfer)
    } else {
        None
    }
}

/// The kind's name, as it enters the identity hash.
pub open spec fn code_label(c: TransactionCode) -> Seq<char> {
    match c {
        TransactionCode::Girotel => "Girotel"@,
        TransactionCode::ATM => "ATM"@,
        TransactionCode::PayTerminal => "PayTerminal"@,
        TransactionCode::Other => "Other"@,
        TransactionCode::IDeal => "IDeal"@,
        TransactionCode::Collect => "Collect"@,
        TransactionCode::Giro => "Giro"@,
        TransactionCode::Transfer => "Transfer"@,
    }
}

impl TransactionCode {
    pub fn from_code(s: &str) -> (r: Option<TransactionCode>)
        ensures
            r == code_of(s@),
    {
        if str_eq(s, "GT") {
            Some(TransactionCode::Girotel)
        } else if str_eq(s, "GM") {
            Some(TransactionCode::ATM)
        } else if str_eq(s, "BA") {
            Some(TransactionCode::PayTerminal)
        } else if str_eq(s, "DV") {
            Some(TransactionCode::Other)
        } else if str_eq(s, "ID") {
            Some(TransactionCode::IDeal)
        } else if str_eq(s, "IC") {
            Some(TransactionCode::Collect)
        } else if str_eq(s, "VZ") {
            Some(TransactionCode::Giro)
        } else if str_eq(s, "OV") {
            Some(TransactionCode::Transfer)
        } else {
            None
        }
    }

    pub fn label(&self) -> (r: String)
        ensures
            r@ == code_label(*self),
    {
        match self {
            TransactionCode::Girotel => "Girotel".to_owned(),
            TransactionCode::ATM => "ATM".to_owned(),
            TransactionCode::PayTerminal => "PayTerminal".to_owned(),
            TransactionCode::Other => "Other".to_owned(),
            TransactionCode::IDeal => "IDeal".to_owned(),
            TransactionCode::Collect => "Collect".to_owned(),
            TransactionCode::Giro => "Giro".to_owned(),
            TransactionCode::Transfer => "Transfer".to_owned(),
        }
    }
}

/// The flag a debit/credit marker text denotes.
pub open spec fn dc_of(s: Seq<char>) -> Option<DebitOrCredit> {
    if s == "Af"@ {
        Some(DebitOrCredit::Credit)
    } else if s == "Bij"@ {
        Some(DebitOrCredit::Debit)
    } else {
        None
    }
}

/// The flag's name, as it enters the identity hash.
pub open spec fn dc_label(d: DebitOrCredit) -> Seq<char> {
    match d {
        DebitOrCredit::Credit => "Credit"@,
        DebitOrCredit::Debit => "Debit"@,
    }
}

impl DebitOrCredit {
    pub fn from_marker(s: &str) -> (r: Option<DebitOrCredit>)
        ensures
            r == dc_of(s@),
    {
        if str_eq(s, "Af") {
            Some(DebitOrCredit::Credit)
        } else if str_eq(s, "Bij") {
            Some(DebitOrCredit::Debit)
        } else {
            None
        }
    }

    pub fn label(&self) -> (r: String)
        ensures
            r@ == dc_label(*self),
    {
        match self {
            DebitOrCredit::Credit => "Credit".to_owned(),
            DebitOrCredit::Debit => "Debit".to_owned(),
        }
    }
}

/// One raw statement row, as plain text fields.
pub struct IngImport {
    pub date: String,
    pub name: String,
    pub iban: String,
    pub counter_iban: Option<String>,
    pub code: String,
    pub debit_or_credit: String,
    pub info: String,
    pub amount: String,
    pub balance_after_transaction: String,
    pub tag: Option<String>,
}

/// The mathematical shape of a raw row.
pub struct RowView {
    pub date: Seq<char>,
    pub name: Seq<char>,
    pub iban: Seq<char>,
    pub counter_iban: Option<Seq<char>>,
    pub code: Seq<char>,
    pub debit_or_credit: Seq<char>,
    pub info: Seq<char>,
    pub amount: Seq<char>,
    pub balance: Seq<char>,
    pub tag: Option<Seq<char>>,
}

impl View for IngImport {
    type V = RowView;

    open spec fn view(&self) -> RowView {
        RowView {
            date: self.date@,
            name: self.name@,
            iban: self.iban@,
            counter_iban: opt_view(self.counter_iban),
            code: self.code@,
            debit_or_credit: self.debit_or_credit@,
            info: self.info@,
            amount: self.amount@,
            balance: self.balance_after_transaction@,
            tag: opt_view(self.tag),
        }
    }
}

/// The text whose digest identifies the row: every defining field of the
/// transaction, delimited.
pub open spec fn hash_base_spec(row: RowView, dc: DebitOrCredit, code: TransactionCode) -> Seq<
    char,
> {
    let contra = match row.counter_iban {
        Some(c) => c,
        None => Seq::empty(),
    };
    "|"@ + row.date + "|"@ + row.iban + "|"@ + row.amount + dc_label(dc) + "|"@ + contra + "|"@
        + row.balance + "|"@ + row.name + " "@ + row.info + "|"@ + code_label(code) + "|"@
}

/// The attribute mapping of a converted row: everything the extractor
/// found, the declared name, and the tag when the row carries one.
pub open spec fn row_props_spec(row: RowView) -> Seq<(Seq<char>, Seq<char>)> {
    let p0 = extract_spec(row.info);
    let p1 = upsert(p0, name_key(), strip_ccv(row.name));
    match row.tag {
        Some(t) => upsert(p1, tag_key(), strip_hash(t)),
        None => p1,
    }
}

/// The mathematical shape of a converted transaction.
pub struct IngTxView {
    pub id: Seq<char>,
    pub iban: Seq<char>,
    pub contra_iban: Option<Seq<char>>,
    pub date: (int, int, int),
    pub balance_before: int,
    pub amount: int,
    pub balance_after: int,
    pub properties: Seq<(Seq<char>, Seq<char>)>,
}

/// The view of a converted transaction.
pub open spec fn tx_view(t: &IngTransaction) -> IngTxView {
    IngTxView {
        id: t.id@,
        iban: t.iban@,
        contra_iban: opt_view(t.contra_iban),
        date: (t.date.year as int, t.date.month as int, t.date.day as int),
        balance_before: t.balance_before as int,
        amount: t.amount as int,
        balance_after: t.balance_after as int,
        properties: t.properties@,
    }
}

/// Converting one raw row: the date, kind code, debit/credit flag, amount
/// and balance must parse — the first failure names its field — and the
/// result carries the content-derived identifier, the signed amount in
/// cents, the derived starting balance, and the extracted attributes.
pub open spec fn convert_spec(row: RowView) -> Result<IngTxView, Seq<char>> {
    match date_of(row.date) {
        None => Err("date"@),
        Some(ymd) => match code_of(row.code) {
            None => Err("code"@),
            Some(code) => match dc_of(row.debit_or_credit) {
                None => Err("debit_or_credit"@),
                Some(dc) => match amount_cents_spec(row.amount) {
                    None => Err("amount"@),
                    Some(a) => match amount_cents_spec(row.balance) {
                        None => Err("balance"@),
                        Some(bal) => {
                            let amount = if dc is Credit {
                                -a
                            } else {
                                a
                            };
                            Ok(
                                IngTxView {
                                    id: hex_of(sha256_of(hash_base_spec(row, dc, code))),
                                    iban: row.iban,
                                    contra_iban: row.counter_iban,
                                    date: ymd,
                                    balance_before: bal - amount,
                                    amount: amount,
                                    balance_after: bal,
                                    properties: row_props_spec(row),
                                },
                            )
                        },
                    },
                },
            },
        },
    }
}

/// Convert one raw row into a transaction, or report which field failed.
pub fn convert_record(line_nr: usize, record: IngImport) -> (r: Result<IngTransaction, LedgerError>)
    ensures
        match r {
            Ok(tx) => convert_spec(record@) == Ok::<IngTxView, Seq<char>>(tx_view(&tx)),
            Err(e) => match e {
                LedgerError::RecordConversionFailed { line_nr: ln, field } => ln == line_nr
                    && convert_spec(record@) == Err::<IngTxView, Seq<char>>(field@),
                _ => false,
            },
        },
{
    let date: Date = match parse_date_yyyymmdd(record.date.as_str()) {
        Some(d) => d,
        None => {
            return Err(
                LedgerError::RecordConversionFailed { line_nr, field: "date".to_owned() },
            );
        },
    };
    let code: TransactionCode = match TransactionCode::from_code(record.code.as_str()) {
        Some(c) => c,
        None => {
            return Err(
                LedgerError::RecordConversionFailed { line_nr, field: "code".to_owned() },
            );
        },
    };
    let dc: DebitOrCredit = match DebitOrCredit::from_marker(record.debit_or_credit.as_str()) {
        Some(d) => d,
        None => {
            return Err(
                LedgerError::RecordConversionFailed {
                    line_nr,
                    field: "debit_or_credit".to_owned(),
                },
            );
        },
    };
    let cents: i64 = match parse_amount_cents(record.amount.as_str()) {
        Some(a) => a,
        None => {
            return Err(
                LedgerError::RecordConversionFailed { line_nr, field: "amount".to_owned() },
            );
        },
    };
    let balance_after: i64 = match parse_amount_cents(record.balance_after_transaction.as_str()) {
        Some(b) => b,
        None => {
            return Err(
                LedgerError::RecordConversionFailed { line_nr, field: "balance".to_owned() },
            );
        },
    };
    let amount: i64 = match dc {
        DebitOrCredit::Credit => -cents,
        DebitOrCredit::Debit => cents,
    };
    let balance_before: i64 = balance_after - amount;

    // The content-derived identifier.
    let mut hash_base: String = "|".to_owned();
    hash_base.append(record.date.as_str());
    hash_base.append("|");
    hash_base.append(record.iban.as_str());
    hash_base.append("|");
    hash_base.append(record.amount.as_str());
    let dc_name: String = dc.label();
    hash_base.append(dc_name.as_str());
    hash_base.append("|");
    match &record.counter_iban {
        Some(c) => {
            hash_base.append(c.as_str());
        },
        None => {},
    }
    hash_base.append("|");
    hash_base.append(record.balance_after_transaction.as_str());
    hash_base.append("|");
    hash_base.append(record.name.as_str());
    hash_base.append(" ");
    hash_base.append(record.info.as_str());
    hash_base.append("|");
    let code_name: String = code.label();
    hash_base.append(code_name.as_str());
    hash_base.append("|");
    proof {
        assert(hash_base@ == hash_base_spec(record@, dc, code));
    }
    let digest: Vec<u8> = sha256_bytes(hash_base.as_str());
    let id: String = hex_lower(&digest);

    let mut props: DescriptionProperties = DescriptionProperties::from_text(record.info.as_str());
    props.define_name(record.name.as_str());
    let contra_iban: Option<String> = match &record.counter_iban {
        Some(c) => Some(c.clone()),
        None => None,
    };
    let tag: Option<String> = record.tag;
    match tag {
        Some(t) => {
            props.define_tag(t);
        },
        None => {},
    }
    Ok(
        IngTransaction {
            id,
            iban: record.iban,
            contra_iban,
            date,
            balance_before,
            amount,
            balance_after,
            properties: props.properties,
        },
    )
}

/// The mathematical shape of a classified transaction record.
pub struct BankTxView {
    pub id: Seq<char>,
    pub date: (int, int, int),
    pub cost_center: Seq<char>,
    pub relation_name: Option<Seq<char>>,
    pub relation_iban: Option<Seq<char>>,
    pub attributes: Seq<(Seq<char>, Seq<char>)>,
    pub amount: int,
    pub account_code: Option<Seq<char>>,
    pub assignment_reason: Option<crate::models::AssignmentReason>,
}

/// The view of a classified transaction record.
pub open spec fn bank_tx_view(t: &BankTransaction) -> BankTxView {
    BankTxView {
        id: t.id@,
        date: (t.date.year as int, t.date.month as int, t.date.day as int),
        cost_center: t.cost_center@,
        relation_name: opt_view(t.relation_name),
        relation_iban: opt_view(t.relation_iban),
        attributes: t.attributes@,
        amount: t.amount as int,
        account_code: opt_view(t.account_code),
        assignment_reason: t.assignment_reason,
    }
}

/// Processing one row end to end: a row whose fields do not convert is an
/// error; a row whose own IBAN maps to no cost center is silently
/// dropped; otherwise the converted row is classified and the record
/// carries the conversion's identity fields and the classifier's outcome.
pub open spec fn process_spec<
    A: AccountsRepository + ?Sized,
    C: CostCentersRepository + ?Sized,
    R: RelationsRepository + ?Sized,
>(
    accounts: &A,
    cost_centers: &C,
    relations: &R,
    row: RowView,
) -> Option<Result<BankTxView, Seq<char>>> {
    match convert_spec(row) {
        Err(f) => Some(Err(f)),
        Ok(tx) => match cost_centers.cost_center_by_iban(tx.iban) {
            None => None,
            Some(cc) => {
                let cls = classify_spec(accounts, relations, cc, tx.contra_iban, tx.properties);
                Some(
                    Ok(
                        BankTxView {
                            id: tx.id,
                            date: tx.date,
                            cost_center: cc,
                            relation_name: cls.relation_name,
                            relation_iban: cls.relation_iban,
                            attributes: cls.attributes,
                            amount: tx.amount,
                            account_code: cls.account_code,
                            assignment_reason: cls.assignment_reason,
                        },
                    ),
                )
            },
        },
    }
}

/// Convert and classify one imported row against the ledger's
/// repositories.
pub fn process_row<A: AccountsRepository, C: CostCentersRepository, R: RelationsRepository>(
    line_nr: usize,
    record: IngImport,
    accounts: &A,
    cost_centers: &C,
    relations: &R,
) -> (r: Option<Result<BankTransaction, LedgerError>>)
    ensures
        match r {
            None => process_spec(accounts, cost_centers, relations, record@) is None,
            Some(res) => match res {
                Ok(tx) => process_spec(accounts, cost_centers, relations, record@) == Some(
                    Ok::<BankTxView, Seq<char>>(bank_tx_view(&tx)),
                ),
                Err(e) => match e {
                    LedgerError::RecordConversionFailed { line_nr: ln, field } => ln == line_nr
                        && process_spec(accounts, cost_centers, relations, record@) == Some(
                        Err::<BankTxView, Seq<char>>(field@),
                    ),
                    _ => false,
                },
            },
        },
{
    let tx: IngTransaction = match convert_record(line_nr, record) {
        Ok(t) => t,
        Err(e) => {
            return Some(Err(e));
        },
    };
    let cost_center: String = match cost_centers.find_cost_center_by_iban(tx.iban.as_str()) {
        Some(cc) => cc,
        None => {
            return None;
        },
    };
    let contra_ref: Option<&String> = match &tx.contra_iban {
        Some(c) => Some(c),
        None => None,
    };
    let cls = classify(accounts, relations, cost_center.as_str(), contra_ref, tx.properties);
    Some(
        Ok(
            BankTransaction {
                id: tx.id,
                date: tx.date,
                cost_center,
                relation_name: cls.relation_name,
                relation_iban: cls.relation_iban,
                attributes: cls.attributes,
                amount: tx.amount,
                account_code: cls.account_code,
                assignment_reason: cls.assignment_reason,
            },
        ),
    )
}

} // verus!

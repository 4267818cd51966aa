//! Commands: external requests to change account state. Each is either
//! rejected or converted into exactly one event.

use vstd::prelude::*;

use crate::decimal::{
    dec_value, eq_ignore_case, eq_ignore_case_spec, find_sep, lemma_sep_index_at,
    lemma_split_len_pos, parse_amount, parse_amount_spec, parse_u16_dec, parse_u32_dec,
    split_spec, trim, trim_spec,
};

verus! {

/// A credit to the client's account.
#[derive(Clone, Copy, Debug, PartialEq, Eq, Structural)]
pub struct Deposit {
    pub client_id: u16,
    pub tx_id: u32,
    pub amount: i64,
}

/// A debit to the client's account; fails when the available funds do not
/// cover it.
#[derive(Clone, Copy, Debug, PartialEq, Eq, Structural)]
pub struct Withdraw {
    pub client_id: u16,
    pub tx_id: u32,
    pub amount: i64,
}

/// A client's claim that a past transaction was erroneous; holds the
/// transaction's amount. Refers to the transaction by id and carries no
/// amount of its own.
#[derive(Clone, Copy, Debug, PartialEq, Eq, Structural)]
pub struct Dispute {
    pub client_id: u16,
    pub tx_id: u32,
}

/// A resolution of a dispute, releasing the held funds.
#[derive(Clone, Copy, Debug, PartialEq, Eq, Structural)]
pub struct Resolve {
    pub client_id: u16,
    pub tx_id: u32,
}

/// The terminal outcome of a dispute: the held funds are withdrawn and the
/// account freezes.
#[derive(Clone, Copy, Debug, PartialEq, Eq, Structural)]
pub struct Chargeback {
    pub client_id: u16,
    pub tx_id: u32,
}

/// The tagged union over the five command kinds.
#[derive(Clone, Copy, Debug, PartialEq, Eq, Structural)]
pub enum TransactionTypeCommand {
    Deposit(Deposit),
    Withdrawal(Withdraw),
    Dispute(Dispute),
    Resolve(Resolve),
    Chargeback(Chargeback),
}

impl TransactionTypeCommand {
    /// The client the command addresses.
    pub open spec fn spec_client_id(self) -> u16 {
        match self {
            TransactionTypeCommand::Deposit(cmd) => cmd.client_id,
            TransactionTypeCommand::Withdrawal(cmd) => cmd.client_id,
            TransactionTypeCommand::Dispute(cmd) => cmd.client_id,
            TransactionTypeCommand::Resolve(cmd) => cmd.client_id,
            TransactionTypeCommand::Chargeback(cmd) => cmd.client_id,
        }
    }

    /// The transaction the command addresses.
    pub open spec fn spec_tx_id(self) -> u32 {
        match self {
            TransactionTypeCommand::Deposit(cmd) => cmd.tx_id,
            TransactionTypeCommand::Withdrawal(cmd) => cmd.tx_id,
            TransactionTypeCommand::Dispute(cmd) => cmd.tx_id,
            TransactionTypeCommand::Resolve(cmd) => cmd.tx_id,
            TransactionTypeCommand::Chargeback(cmd) => cmd.tx_id,
        }
    }

    /// The client the command addresses.
    pub fn client_id(&self) -> (r: u16)
        ensures
            r == self.spec_client_id(),
    {
        match self {
            TransactionTypeCommand::Deposit(cmd) => cmd.client_id,
            TransactionTypeCommand::Withdrawal(cmd) => cmd.client_id,
            TransactionTypeCommand::Dispute(cmd) => cmd.client_id,
            TransactionTypeCommand::Resolve(cmd) => cmd.client_id,
            TransactionTypeCommand::Chargeback(cmd) => cmd.client_id,
        }
    }

    /// The transaction the command addresses.
    pub fn tx_id(&self) -> (r: u32)
        ensures
            r == self.spec_tx_id(),
    {
        match self {
            TransactionTypeCommand::Deposit(cmd) => cmd.tx_id,
            TransactionTypeCommand::Withdrawal(cmd) => cmd.tx_id,
            TransactionTypeCommand::Dispute(cmd) => cmd.tx_id,
            TransactionTypeCommand::Resolve(cmd) => cmd.tx_id,
            TransactionTypeCommand::Chargeback(cmd) => cmd.tx_id,
        }
    }
}

/// One raw CSV data row: the four fields as read, untrimmed.
#[derive(Debug)]
pub struct CsvRow {
    pub transaction_type: String,
    pub client: String,
    pub tx: String,
    pub amount: String,
}

/// The command a well-formed row denotes, or `None` when the row is
/// malformed: a client id that is not a `u16`, a transaction id that is
/// not a `u32`, a non-empty amount field that is not a decimal of up to
/// four fractional digits, an unknown transaction type, or a missing
/// amount on a deposit or withdrawal. Blanks around fields are
/// tolerated; the type is matched ignoring ASCII case.
pub open spec fn row_command(row: CsvRow) -> Option<TransactionTypeCommand> {
    row_command_spec(row.transaction_type@, row.client@, row.tx@, row.amount@)
}

/// The command the four raw field texts of a row denote; see
/// [`row_command`].
pub open spec fn row_command_spec(
    ty_raw: Seq<char>,
    cl_raw: Seq<char>,
    tx_raw: Seq<char>,
    am_raw: Seq<char>,
) -> Option<TransactionTypeCommand> {
    let ty = trim_spec(ty_raw);
    let cl = dec_value(trim_spec(cl_raw));
    let tx = dec_value(trim_spec(tx_raw));
    let am_text = trim_spec(am_raw);
    if ({
        &&& cl matches Some(c) && c <= u16::MAX
        &&& tx matches Some(t) && t <= u32::MAX
        &&& (am_text.len() == 0 || (parse_amount_spec(am_text) matches Some(_)))
    }) {
        let client_id = cl.unwrap() as u16;
        let tx_id = tx.unwrap() as u32;
        let amount = if am_text.len() == 0 {
            None
        } else {
            Some(parse_amount_spec(am_text).unwrap())
        };
        if eq_ignore_case_spec(ty, "deposit"@) {
            match amount {
                Some(a) => Some(
                    TransactionTypeCommand::Deposit(Deposit { client_id, tx_id, amount: a }),
                ),
                None => None,
            }
        } else if eq_ignore_case_spec(ty, "withdrawal"@) {
            match amount {
                Some(a) => Some(
                    TransactionTypeCommand::Withdrawal(Withdraw { client_id, tx_id, amount: a }),
                ),
                None => None,
            }
        } else if eq_ignore_case_spec(ty, "dispute"@) {
            Some(TransactionTypeCommand::Dispute(Dispute { client_id, tx_id }))
        } else if eq_ignore_case_spec(ty, "resolve"@) {
            Some(TransactionTypeCommand::Resolve(Resolve { client_id, tx_id }))
        } else if eq_ignore_case_spec(ty, "chargeback"@) {
            Some(TransactionTypeCommand::Chargeback(Chargeback { client_id, tx_id }))
        } else {
            None
        }
    } else {
        None
    }
}

impl CsvRow {
    /// Split one CSV line into its four fields; `None` when the line
    /// does not have exactly four comma-separated fields.
    pub fn from_line(line: &str) -> (r: Option<CsvRow>)
        ensures
            ({
                let fields = split_spec(line@, ',');
                if fields.len() == 4 {
                    r matches Some(row) && row.transaction_type@ == fields[0] && row.client@
                        == fields[1] && row.tx@ == fields[2] && row.amount@ == fields[3]
                } else {
                    r matches None
                }
            }),
    {
        let n = line.unicode_len();
        let d1 = find_sep(line, 0, ',');
        proof {
            lemma_sep_index_at(line@, ',', d1 as int);
        }
        if d1 == n {
            proof {
                assert(split_spec(line@, ',') =~~= seq![line@]);
            }
            return None;
        }
        let ghost s1 = line@.skip(d1 + 1);
        let d2 = find_sep(line, d1 + 1, ',');
        proof {
            assert(forall|m: int| 0 <= m < s1.len() ==> #[trigger] s1[m] == line@[m + d1 + 1]);
            lemma_sep_index_at(s1, ',', d2 - d1 - 1);
        }
        if d2 == n {
            proof {
                assert(split_spec(s1, ',') =~~= seq![s1]);
                assert(split_spec(line@, ',') =~~= seq![line@.take(d1 as int), s1]);
            }
            return None;
        }
        let ghost s2 = line@.skip(d2 + 1);
        let d3 = find_sep(line, d2 + 1, ',');
        proof {
            assert(s1.skip(d2 - d1) =~= s2);
            assert(forall|m: int| 0 <= m < s2.len() ==> #[trigger] s2[m] == line@[m + d2 + 1]);
            lemma_sep_index_at(s2, ',', d3 - d2 - 1);
        }
        if d3 == n {
            proof {
                assert(split_spec(s2, ',') =~~= seq![s2]);
                assert(split_spec(s1, ',') =~~= seq![s1.take(d2 - d1 - 1), s2]);
                assert(split_spec(line@, ',') =~~= seq![
                    line@.take(d1 as int),
                    s1.take(d2 - d1 - 1),
                    s2,
                ]);
            }
            return None;
        }
        let ghost s3 = line@.skip(d3 + 1);
        let d4 = find_sep(line, d3 + 1, ',');
        proof {
            assert(s2.skip(d3 - d2) =~= s3);
            assert(forall|m: int| 0 <= m < s3.len() ==> #[trigger] s3[m] == line@[m + d3 + 1]);
            lemma_sep_index_at(s3, ',', d4 - d3 - 1);
        }
        if d4 < n {
            proof {
                lemma_split_len_pos(s3.skip(d4 - d3), ',');
                assert(split_spec(s3, ',').len() >= 2);
                assert(split_spec(s2, ',').len() >= 3);
                assert(split_spec(s1, ',').len() >= 4);
                assert(split_spec(line@, ',').len() >= 5);
            }
            return None;
        }
        let row = CsvRow {
            transaction_type: line.substring_char(0, d1).to_owned(),
            client: line.substring_char(d1 + 1, d2).to_owned(),
            tx: line.substring_char(d2 + 1, d3).to_owned(),
            amount: line.substring_char(d3 + 1, n).to_owned(),
        };
        proof {
            let fields = split_spec(line@, ',');
            assert(split_spec(s3, ',') =~~= seq![s3]);
            assert(split_spec(s2, ',') =~~= seq![s2.take(d3 - d2 - 1), s3]);
            assert(split_spec(s1, ',') =~~= seq![s1.take(d2 - d1 - 1), s2.take(d3 - d2 - 1), s3]);
            assert(fields =~~= seq![
                line@.take(d1 as int),
                s1.take(d2 - d1 - 1),
                s2.take(d3 - d2 - 1),
                s3,
            ]);
            assert(row.transaction_type@ =~= line@.take(d1 as int));
            assert(row.client@ =~= s1.take(d2 - d1 - 1));
            assert(row.tx@ =~= s2.take(d3 - d2 - 1));
            assert(row.amount@ =~= s3);
        }
        Some(row)
    }
}

impl TransactionTypeCommand {
    /// Convert one raw CSV row into a command; a malformed row is
    /// rejected with a description.
    pub fn try_from(row: &CsvRow) -> (r: Result<TransactionTypeCommand, String>)
        ensures
            match row_command(*row) {
                Some(cmd) => r == Ok::<TransactionTypeCommand, String>(cmd),
                None => r matches Err(_),
            },
    {
        let client_id = match parse_u16_dec(trim(row.client.as_str())) {
            Some(v) => v,
            None => {
                return Err(String::from_str("client id is not a 16-bit integer"));
            },
        };
        let tx_id = match parse_u32_dec(trim(row.tx.as_str())) {
            Some(v) => v,
            None => {
                return Err(String::from_str("transaction id is not a 32-bit integer"));
            },
        };
        let amount_text = trim(row.amount.as_str());
        let amount: Option<i64> = if amount_text.unicode_len() == 0 {
            None
        } else {
            match parse_amount(amount_text) {
                Some(v) => Some(v),
                None => {
                    return Err(String::from_str("amount is not a decimal number"));
                },
            }
        };
        let ty = trim(row.transaction_type.as_str());
        if eq_ignore_case(ty, "deposit") {
            match amount {
                Some(a) => Ok(
                    TransactionTypeCommand::Deposit(Deposit { client_id, tx_id, amount: a }),
                ),
                None => Err(String::from_str("deposit requires amount")),
            }
        } else if eq_ignore_case(ty, "withdrawal") {
            match amount {
                Some(a) => Ok(
                    TransactionTypeCommand::Withdrawal(Withdraw { client_id, tx_id, amount: a }),
                ),
                None => Err(String::from_str("withdrawal requires amount")),
            }
        } else if eq_ignore_case(ty, "dispute") {
            Ok(TransactionTypeCommand::Dispute(Dispute { client_id, tx_id }))
        } else if eq_ignore_case(ty, "resolve") {
            Ok(TransactionTypeCommand::Resolve(Resolve { client_id, tx_id }))
        } else if eq_ignore_case(ty, "chargeback") {
            Ok(TransactionTypeCommand::Chargeback(Chargeback { client_id, tx_id }))
        } else {
            Err(String::from_str("unknown transaction type"))
        }
    }
}

} // verus!

//! The element tree of a camt.053 message, as far as it is read.

use vstd::prelude::*;

verus! {

/// One `Ntry` element: a booked entry.
#[derive(Debug, Default)]
pub struct Camt053Entry {
    pub amount: CamtAmtXml,
    pub cdt_dbt_ind: String,
    pub booking_date: CamtDateXml,
    pub value_date: CamtDateXml,
    pub details: Option<CamtEntryDetails>,
}

/// One `Stmt` element: a statement.
#[derive(Debug, Default)]
pub struct Camt053Statement {
    pub id: Option<String>,
    pub sequence_number: Option<u32>,
    pub created_at: Option<String>,
    pub period: Option<Camt053Period>,
    pub account: Camt053Account,
    pub balances: Vec<Camt053Balance>,
    pub entries: Vec<Camt053Entry>,
}

/// The `Document` element.
#[derive(Debug, Default)]
pub struct Camt053Document {
    pub bank_to_customer: Camt053BankToCustomer,
}

/// The `BkToCstmrStmt` element: the message.
#[derive(Debug, Default)]
pub struct Camt053BankToCustomer {
    pub group_header: Option<Camt053GroupHeader>,
    pub statements: Vec<Camt053Statement>,
}

/// The `GrpHdr` element.
#[derive(Debug, Default)]
pub struct Camt053GroupHeader {
    pub message_id: String,
    pub created_at: Option<String>,
}

/// An `Amt` element: the amount as text, with its `Ccy` attribute.
#[derive(Debug, Default)]
pub struct CamtAmtXml {
    pub currency: String,
    pub value: String,
}

/// A date element with a `Dt` child.
#[derive(Debug, Default)]
pub struct CamtDateXml {
    pub date: String,
}

/// The `Refs` element.
#[derive(Debug, Default)]
pub struct CamtRefs {
    pub end_to_end_id: Option<String>,
    pub tx_id: Option<String>,
    pub instr_id: Option<String>,
    pub pmt_inf_id: Option<String>,
}

/// The `AmtDtls` element.
#[derive(Debug, Default)]
pub struct CamtAmountDetails {
    pub instructed: Option<CamtInstructedAmount>,
    pub transaction: Option<CamtTransactionAmount>,
}

/// The `InstdAmt` element.
#[derive(Debug, Default)]
pub struct CamtInstructedAmount {
    pub amount: CamtMoney,
}

/// The `TxAmt` element.
#[derive(Debug, Default)]
pub struct CamtTransactionAmount {
    pub amount: CamtMoney,
    pub fx: Option<CamtCurrencyExchange>,
}

/// An amount as text, with its `Ccy` attribute.
#[derive(Debug, Default)]
pub struct CamtMoney {
    pub currency: String,
    pub value: String,
}

/// The `CcyXchg` element.
#[derive(Debug, Default)]
pub struct CamtCurrencyExchange {
    pub src_ccy: Option<String>,
    pub trgt_ccy: Option<String>,
    pub unit_ccy: Option<String>,
    pub rate: Option<String>,
}

/// The `RltdPties` element.
#[derive(Debug, Default)]
pub struct CamtRelatedParties {
    pub debtor: Option<CamtParty>,
    pub debtor_account: Option<CamtAccount>,
    pub creditor: Option<CamtParty>,
    pub creditor_account: Option<CamtAccount>,
    pub ultimate_debtor: Option<CamtParty>,
    pub ultimate_creditor: Option<CamtParty>,
}

/// A party: debtor or creditor.
#[derive(Debug, Default)]
pub struct CamtParty {
    pub name: Option<String>,
    pub postal_address: Option<CamtPostalAddress>,
    pub id: Option<CamtPartyId>,
}

/// The account of a party.
#[derive(Debug, Default)]
pub struct CamtAccount {
    pub id: CamtAccountId,
}

/// The identification of the account of a party.
#[derive(Debug, Default)]
pub struct CamtAccountId {
    pub iban: Option<String>,
}

/// The `PstlAdr` element.
#[derive(Debug, Default)]
pub struct CamtPostalAddress {
    pub street: Option<String>,
    pub postcode: Option<String>,
    pub town: Option<String>,
    pub country: Option<String>,
}

/// The `Id` element of a party, of which nothing is read.
#[derive(Debug, Default)]
pub struct CamtPartyId {}

/// The `RmtInf` element.
#[derive(Debug, Default)]
pub struct CamtRemittanceInfo {
    pub unstructured: Vec<String>,
    pub structured: Vec<CamtStructuredRemittance>,
}

/// A `Strd` element, of which nothing is read.
#[derive(Debug, Default)]
pub struct CamtStructuredRemittance {}

/// The `RltdDts` element.
#[derive(Debug, Default)]
pub struct CamtRelatedDates {
    pub acceptance_datetime: Option<String>,
}

/// One `TxDtls` element.
#[derive(Debug, Default)]
pub struct CamtTxDtls {
    pub refs: Option<CamtRefs>,
    pub amount_details: Option<CamtAmountDetails>,
    pub related_parties: Option<CamtRelatedParties>,
    pub rmt_inf: Option<CamtRemittanceInfo>,
    pub related_datetimes: Option<CamtRelatedDates>,
}

/// The `NtryDtls` element.
#[derive(Debug, Default)]
pub struct CamtEntryDetails {
    pub tx_details: Vec<CamtTxDtls>,
}

/// The `Acct` element of a statement.
#[derive(Debug, Default)]
pub struct Camt053Account {
    pub id: Camt053AccountId,
    pub name: Option<String>,
    pub currency: Option<String>,
}

/// The identification of the account of a statement.
#[derive(Debug, Default)]
pub struct Camt053AccountId {
    pub iban: Option<String>,
}

/// The `FrToDt` element.
#[derive(Debug, Default)]
pub struct Camt053Period {
    pub from: Option<String>,
    pub to: Option<String>,
}

/// One `Bal` element.
#[derive(Debug, Default)]
pub struct Camt053Balance {
    pub balance_type: Camt053BalanceType,
    pub amount: CamtAmtXml,
    pub cdt_dbt_ind: Option<String>,
    pub date: Option<CamtDateXml>,
}

/// The `Tp` element of a balance.
#[derive(Debug, Default)]
pub struct Camt053BalanceType {
    pub code_or_proprietary: Camt053BalanceCodeOrProprietary,
}

/// The `CdOrPrtry` element of a balance type.
#[derive(Debug, Default)]
pub struct Camt053BalanceCodeOrProprietary {
    pub code: Option<String>,
}

} // verus!

//! What holds across the formats: the period of a statement that was read,
//! and a statement that goes from one format into another: from a camt.053
//! statement element into the rows of a CSV export, and from those into an
//! MT940 message.

use crate::camt053::camt_statement_of;
use crate::camt053::models::Camt053Statement;
use crate::csv_parser::{csv_statement_of, data_of, CsvDataView};
use crate::camt053::utils::camt_date_of;
use crate::date::{chrono_date, dotted_text, iso_text, valid_ymd};
use crate::error::ErrorKind;
use crate::laws::camt053::{camt_agrees, law_camt_statement_round_trip};
use crate::laws::csv::{csv_agrees, fits_csv, law_csv_statement_round_trip, written_name};
use crate::laws::mt940::{agrees, fits_statement, law_mt940_round_trip, read_message};
use crate::model::StatementView;
use crate::mt940::{first_message_of, statement_of, MessageView};
use crate::serialization::camt053_helpers::is_statement_of;
use crate::serialization::csv_helpers::csv_document;
use crate::serialization::mt940_helpers::mt940_text;
use crate::text::trim;
use vstd::prelude::*;

verus! {

/// The period of a statement that is read from a message, from an export
/// or from a camt.053 statement does not end before it begins.
pub proof fn law_period_ordered(message: MessageView, export: CsvDataView, camt: Camt053Statement)
    ensures
        statement_of(message) matches Ok(s) ==> s.period_ordered(),
        csv_statement_of(export) matches Ok(s) ==> s.period_ordered(),
        camt_statement_of(camt) matches Ok(s) ==> s.period_ordered(),
{
}

/// The statement that is read from the rows of the CSV export of a
/// statement.
pub open spec fn through_csv(s: StatementView, day: (int, int, int), clock: (int, int, int))
    -> StatementView {
    csv_statement_of(data_of(csv_document(s, day, clock))->Ok_0)->Ok_0
}

/// A statement that goes through the rows of a CSV export and then through
/// an MT940 message keeps its account but for the white space around it,
/// its currency where that is one that the library knows by name, both
/// balances, the number of its transactions, and the amount and the
/// direction of each, and both ends of its period. The booking date of each
/// is what chrono reads from the date that it wrote into the export, and it
/// is the value date too.
///
/// This holds where the export is read as a statement at all, which lies
/// with chrono and the order of the two ends of the period, and where what
/// is read fits an MT940 message.
pub proof fn law_csv_then_mt940(s: StatementView, day: (int, int, int), clock: (int, int, int))
    requires
        fits_csv(s),
        valid_ymd(day.0, day.1, day.2),
        0 <= clock.0 && 0 <= clock.1 && 0 <= clock.2,
        csv_statement_of(data_of(csv_document(s, day, clock))->Ok_0) is Ok,
        fits_statement(through_csv(s, day, clock)),
    ensures
        first_message_of(mt940_text(through_csv(s, day, clock))) == Ok::<
            (MessageView, nat),
            ErrorKind,
        >((read_message(through_csv(s, day, clock)), 1nat)),
        statement_of(read_message(through_csv(s, day, clock))) is Ok,
        ({
            let middle = through_csv(s, day, clock);
            let last = statement_of(read_message(middle))->Ok_0;
            &&& last.account_id == trim(s.account_id)
            &&& !(s.currency is Other) ==> last.currency == s.currency
            &&& last.opening_balance == s.opening_balance
            &&& last.closing_balance == s.closing_balance
            &&& last.period_from == s.period_from
            &&& last.period_until == s.period_until
            &&& last.transactions.len() == s.transactions.len()
            &&& forall|i: int|
                0 <= i < s.transactions.len() ==> {
                    let read = #[trigger] last.transactions[i];
                    &&& read.amount == s.transactions[i].amount
                    &&& read.direction == s.transactions[i].direction
                    &&& chrono_date(dotted_text(s.transactions[i].booking_date), "%d.%m.%Y"@)
                        == Some(read.booking_date)
                    &&& read.value_date == Some(read.booking_date)
                }
        }),
{
    let middle = through_csv(s, day, clock);
    law_csv_statement_round_trip(s, day, clock);
    law_mt940_round_trip(middle);
    let last = statement_of(read_message(middle))->Ok_0;
    assert forall|i: int| 0 <= i < s.transactions.len() implies {
        let read = #[trigger] last.transactions[i];
        &&& read.amount == s.transactions[i].amount
        &&& read.direction == s.transactions[i].direction
        &&& chrono_date(dotted_text(s.transactions[i].booking_date), "%d.%m.%Y"@) == Some(
            read.booking_date,
        )
        &&& read.value_date == Some(read.booking_date)
    } by {
        assert(csv_agrees(middle.transactions[i], s.transactions[i], s.account_id, written_name(s)));
        assert(agrees(last.transactions[i], middle.transactions[i]));
    }
}

/// A statement that goes through a camt.053 statement element, then
/// through the rows of a CSV export and then through an MT940 message keeps
/// its account but for the white space around it, its currency where that
/// is one that the library knows by name, both balances, the number of its
/// transactions, and the amount and the direction of each. The ends of its
/// period are what chrono reads from the dates that it wrote into the
/// element.
///
/// This holds where the element and the export are read as statements at
/// all, which lies with chrono, where the magnitudes of the balances fit 64
/// bits, and where what is read fits the export and then the message.
pub proof fn law_camt_then_csv_then_mt940(
    e: Camt053Statement,
    s: StatementView,
    made: ((int, int, int), (int, int, int)),
    day: (int, int, int),
    clock: (int, int, int),
)
    requires
        is_statement_of(e, s, made.0, made.1),
        s.opening_balance matches Some(b) ==> -(u64::MAX as int) <= b <= u64::MAX as int,
        s.closing_balance matches Some(b) ==> -(u64::MAX as int) <= b <= u64::MAX as int,
        camt_statement_of(e) is Ok,
        fits_csv(camt_statement_of(e)->Ok_0),
        valid_ymd(day.0, day.1, day.2),
        0 <= clock.0 && 0 <= clock.1 && 0 <= clock.2,
        csv_statement_of(data_of(csv_document(camt_statement_of(e)->Ok_0, day, clock))->Ok_0) is Ok,
        fits_statement(through_csv(camt_statement_of(e)->Ok_0, day, clock)),
    ensures
        ({
            let first = camt_statement_of(e)->Ok_0;
            let middle = through_csv(first, day, clock);
            let last = statement_of(read_message(middle))->Ok_0;
            &&& first_message_of(mt940_text(middle)) == Ok::<(MessageView, nat), ErrorKind>(
                (read_message(middle), 1nat),
            )
            &&& statement_of(read_message(middle)) is Ok
            &&& last.account_id == trim(s.account_id)
            &&& !(s.currency is Other) ==> last.currency == s.currency
            &&& last.opening_balance == s.opening_balance
            &&& last.closing_balance == s.closing_balance
            &&& last.period_ordered()
            &&& camt_date_of(iso_text(s.period_from)) == Ok::<(int, int, int), ErrorKind>(
                last.period_from,
            )
            &&& camt_date_of(iso_text(s.period_until)) == Ok::<(int, int, int), ErrorKind>(
                last.period_until,
            )
            &&& last.transactions.len() == s.transactions.len()
            &&& forall|i: int|
                0 <= i < s.transactions.len() ==> {
                    let read = #[trigger] last.transactions[i];
                    &&& read.amount == s.transactions[i].amount
                    &&& read.direction == s.transactions[i].direction
                }
        }),
{
    let first = camt_statement_of(e)->Ok_0;
    let middle = through_csv(first, day, clock);
    let last = statement_of(read_message(middle))->Ok_0;
    law_camt_statement_round_trip(e, s, made.0, made.1);
    law_csv_then_mt940(first, day, clock);
    assert forall|i: int| 0 <= i < s.transactions.len() implies {
        let read = #[trigger] last.transactions[i];
        &&& read.amount == s.transactions[i].amount
        &&& read.direction == s.transactions[i].direction
    } by {
        assert(camt_agrees(first.transactions[i], s.transactions[i]));
    }
}

} // verus!

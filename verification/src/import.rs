//! Importing bank statement exports: a typed transaction record, a
//! column-indexed row mapper that silently drops malformed rows, and the
//! Boursobank column layout bound to it.

use vstd::prelude::*;

use crate::amount::spec_amount_cents;
use crate::amount::Amount;
use crate::date::spec_parse_date;
use crate::date::Date;
use crate::date::DateView;
use crate::text::parse_u32_digits;
use crate::text::replace_char;
use crate::text::replace_chars;
use crate::text::spec_parse_u32;

verus! {

/// The mathematical content of a [`BankLine`].
#[verifier::ext_equal]
pub ghost struct BankLineView {
    pub date_op: DateView,
    pub date_val: DateView,
    pub label: Seq<char>,
    pub category: Seq<Seq<char>>,
    pub sender_reciever: Seq<char>,
    pub amount: int,
    pub comment: Seq<char>,
    pub account_number: int,
    pub account_label: Seq<char>,
    pub account_balance: int,
}

/// One bank account movement: dates, label, category hierarchy,
/// counterparty, signed amount in cents, comment, and the account it
/// belongs to with its balance after the operation.
#[derive(Debug, Clone, PartialEq)]
pub struct BankLine {
    date_op: Date,
    date_val: Date,
    label: String,
    category: Vec<String>,
    sender_reciever: String,
    amount: Amount,
    comment: String,
    account_number: u32,
    account_label: String,
    account_balance: Amount,
}

impl View for BankLine {
    type V = BankLineView;

    closed spec fn view(&self) -> BankLineView {
        BankLineView {
            date_op: self.date_op@,
            date_val: self.date_val@,
            label: self.label@,
            category: self.category.deep_view(),
            sender_reciever: self.sender_reciever@,
            amount: self.amount@,
            comment: self.comment@,
            account_number: self.account_number as int,
            account_label: self.account_label@,
            account_balance: self.account_balance@,
        }
    }
}

impl BankLine {
    /// Builds a record from already-validated components; every field is
    /// taken as given.
    pub fn new(
        date_op: Date,
        date_val: Date,
        label: String,
        category: Vec<String>,
        supplier_found: String,
        amount: Amount,
        comment: String,
        account_number: u32,
        account_label: String,
        account_balance: Amount,
    ) -> (r: BankLine)
        ensures
            r@ == (BankLineView {
                date_op: date_op@,
                date_val: date_val@,
                label: label@,
                category: category.deep_view(),
                sender_reciever: supplier_found@,
                amount: amount@,
                comment: comment@,
                account_number: account_number as int,
                account_label: account_label@,
                account_balance: account_balance@,
            }),
    {
        BankLine {
            date_op,
            date_val,
            label,
            category,
            sender_reciever: supplier_found,
            amount,
            comment,
            account_number,
            account_label,
            account_balance,
        }
    }

    /// The date the operation occurred.
    pub fn get_date_op(&self) -> (r: &Date)
        ensures
            r@ == self@.date_op,
    {
        &self.date_op
    }

    /// The date the operation was settled.
    pub fn get_date_val(&self) -> (r: &Date)
        ensures
            r@ == self@.date_val,
    {
        &self.date_val
    }

    /// The operation's label.
    pub fn get_label(&self) -> (r: &String)
        ensures
            r@ == self@.label,
    {
        &self.label
    }

    /// The category hierarchy, broadest first.
    pub fn get_category(&self) -> (r: &Vec<String>)
        ensures
            r.deep_view() == self@.category,
    {
        &self.category
    }

    /// The counterparty's name.
    pub fn get_sender_reciever(&self) -> (r: &String)
        ensures
            r@ == self@.sender_reciever,
    {
        &self.sender_reciever
    }

    /// The signed amount of the operation; positive means gain.
    pub fn get_amount(&self) -> (r: Amount)
        ensures
            r@ == self@.amount,
    {
        self.amount
    }

    /// The free-form comment on the operation.
    pub fn get_comment(&self) -> (r: &String)
        ensures
            r@ == self@.comment,
    {
        &self.comment
    }

    /// The account's number.
    pub fn get_account_number(&self) -> (r: u32)
        ensures
            r as int == self@.account_number,
    {
        self.account_number
    }

    /// The account's human-readable name.
    pub fn get_account_label(&self) -> (r: &String)
        ensures
            r@ == self@.account_label,
    {
        &self.account_label
    }

    /// The account's balance right after the operation.
    pub fn get_account_balance(&self) -> (r: Amount)
        ensures
            r@ == self@.account_balance,
    {
        self.account_balance
    }
}

/// The mathematical content of a [`ColumnLayout`].
#[verifier::ext_equal]
pub ghost struct LayoutView {
    pub date_op_idx: int,
    pub date_val_idx: int,
    pub label_idx: int,
    pub category_idx: Seq<int>,
    pub supplier_found_idx: int,
    pub amount_idx: int,
    pub comment_idx: int,
    pub account_number_idx: int,
    pub account_label_idx: int,
    pub account_balance_idx: int,
    pub date_sep: char,
    pub decimal_comma: bool,
}

/// One bank's export format: where each field sits in a row, the date
/// separator, and whether amounts are written with a decimal comma.
/// Supporting another bank means supplying another value of this.
pub struct ColumnLayout {
    pub date_op_idx: usize,
    pub date_val_idx: usize,
    pub label_idx: usize,
    /// Column of each category level, broadest first; the order here,
    /// not the file's, decides the record's category order.
    pub category_idx: Vec<usize>,
    pub supplier_found_idx: usize,
    pub amount_idx: usize,
    pub comment_idx: usize,
    pub account_number_idx: usize,
    pub account_label_idx: usize,
    pub account_balance_idx: usize,
    pub date_sep: char,
    pub decimal_comma: bool,
}

impl View for ColumnLayout {
    type V = LayoutView;

    open spec fn view(&self) -> LayoutView {
        LayoutView {
            date_op_idx: self.date_op_idx as int,
            date_val_idx: self.date_val_idx as int,
            label_idx: self.label_idx as int,
            category_idx: self.category_idx@.map_values(|i: usize| i as int),
            supplier_found_idx: self.supplier_found_idx as int,
            amount_idx: self.amount_idx as int,
            comment_idx: self.comment_idx as int,
            account_number_idx: self.account_number_idx as int,
            account_label_idx: self.account_label_idx as int,
            account_balance_idx: self.account_balance_idx as int,
            date_sep: self.date_sep,
            decimal_comma: self.decimal_comma,
        }
    }
}

/// The cents an amount field holds, once a decimal comma, if the layout
/// announces one, has been turned into a dot.
pub open spec fn spec_field_amount(s: Seq<char>, decimal_comma: bool) -> Option<int> {
    spec_amount_cents(
        if decimal_comma {
            replace_chars(s, ',', '.')
        } else {
            s
        },
    )
}

/// The record a row yields under a layout, or absence if any configured
/// column is missing or any typed field fails to parse.
pub open spec fn spec_row_line(row: Seq<Seq<char>>, l: LayoutView) -> Option<BankLineView> {
    if 0 <= l.date_op_idx < row.len() && 0 <= l.date_val_idx < row.len() && 0 <= l.label_idx
        < row.len() && 0 <= l.supplier_found_idx < row.len() && 0 <= l.amount_idx < row.len() && 0
        <= l.comment_idx < row.len() && 0 <= l.account_number_idx < row.len() && 0
        <= l.account_label_idx < row.len() && 0 <= l.account_balance_idx < row.len() && (forall|
        k: int,
    |
        0 <= k < l.category_idx.len() ==> 0 <= #[trigger] l.category_idx[k] < row.len()) {
        let date_op = spec_parse_date(row[l.date_op_idx], l.date_sep);
        let date_val = spec_parse_date(row[l.date_val_idx], l.date_sep);
        let amount = spec_field_amount(row[l.amount_idx], l.decimal_comma);
        let account = spec_parse_u32(row[l.account_number_idx]);
        let balance = spec_field_amount(row[l.account_balance_idx], l.decimal_comma);
        if date_op is Some && date_val is Some && amount is Some && account is Some && balance
            is Some {
            Some(
                BankLineView {
                    date_op: date_op.unwrap(),
                    date_val: date_val.unwrap(),
                    label: row[l.label_idx],
                    category: l.category_idx.map_values(|k: int| row[k]),
                    sender_reciever: row[l.supplier_found_idx],
                    amount: amount.unwrap(),
                    comment: row[l.comment_idx],
                    account_number: account.unwrap() as int,
                    account_label: row[l.account_label_idx],
                    account_balance: balance.unwrap(),
                },
            )
        } else {
            None
        }
    } else {
        None
    }
}

/// The records of a sequence of rows under a layout, in row order,
/// rejected rows left out.
pub open spec fn spec_rows_lines(rows: Seq<Seq<Seq<char>>>, l: LayoutView) -> Seq<BankLineView>
    decreases rows.len(),
{
    if rows.len() == 0 {
        Seq::<BankLineView>::empty()
    } else {
        let rest = spec_rows_lines(rows.drop_last(), l);
        match spec_row_line(rows.last(), l) {
            Some(b) => rest.push(b),
            None => rest,
        }
    }
}

/// The rows the csv tokenizer finds in the given bytes with the given
/// delimiter: standard quoting, no header treatment, rows of any width,
/// rows that are not valid text left out.
pub uninterp spec fn rows_of(data: Seq<u8>, delim: u8) -> Seq<Seq<Seq<char>>>;

/// Relies on the csv crate: `ReaderBuilder` configured with `delimiter`,
/// `has_headers(false)` and `flexible(true)`, then `Reader::into_records`.
/// The records found in the bytes depend on the bytes and the delimiter
/// alone; records that are not valid UTF-8 are dropped; empty input
/// holds no record.
#[verifier::external_body]
fn tokenize_rows(data: &[u8], delim: u8) -> (r: Vec<Vec<String>>)
    ensures
        r.deep_view() == rows_of(data@, delim),
        data@.len() == 0 ==> r@.len() == 0,
{
    csv::ReaderBuilder::new()
        .delimiter(delim)
        .has_headers(false)
        .flexible(true)
        .from_reader(data)
        .into_records()
        .filter_map(|rec| rec.ok())
        .map(|rec| rec.iter().map(|field| field.to_string()).collect())
        .collect()
}

/// An amount field read as the layout announces it: with a decimal comma
/// turned into a dot first, or as written.
fn parse_field_amount(s: &str, decimal_comma: bool) -> (r: Option<Amount>)
    ensures
        match spec_field_amount(s@, decimal_comma) {
            Some(c) => r matches Some(a) && a@ == c,
            None => r is None,
        },
{
    if decimal_comma {
        let t = replace_char(s, ',', '.');
        Amount::parse_euro(t.as_str())
    } else {
        Amount::parse_euro(s)
    }
}

/// Maps one tokenized row to a record under a layout, per
/// [`spec_row_line`].
fn map_row(row: &Vec<String>, layout: &ColumnLayout) -> (r: Option<BankLine>)
    ensures
        match spec_row_line(row.deep_view(), layout@) {
            Some(bv) => r matches Some(b) && b@ == bv,
            None => r is None,
        },
{
    proof {
        assert(forall|j: int|
            0 <= j < row@.len() ==> #[trigger] row.deep_view()[j] == row@[j]@);
    }
    if layout.date_op_idx >= row.len() || layout.date_val_idx >= row.len() || layout.label_idx
        >= row.len() || layout.supplier_found_idx >= row.len() || layout.amount_idx >= row.len()
        || layout.comment_idx >= row.len() || layout.account_number_idx >= row.len()
        || layout.account_label_idx >= row.len() || layout.account_balance_idx >= row.len() {
        return None;
    }
    let mut category: Vec<String> = Vec::new();
    let mut k: usize = 0;
    proof {
        assert(category.deep_view() =~= layout@.category_idx.subrange(0, 0).map_values(
            |j: int| row.deep_view()[j],
        ));
    }
    while k < layout.category_idx.len()
        invariant
            k <= layout.category_idx.len(),
            layout@.category_idx.len() == layout.category_idx@.len(),
            forall|j: int|
                0 <= j < k ==> 0 <= #[trigger] layout@.category_idx[j] < row.deep_view().len(),
            category.deep_view() == layout@.category_idx.subrange(0, k as int).map_values(
                |j: int| row.deep_view()[j],
            ),
        decreases layout.category_idx.len() - k,
    {
        let ghost cat0 = category.deep_view();
        let idx = layout.category_idx[k];
        proof {
            assert(layout@.category_idx[k as int] == idx as int);
        }
        if idx >= row.len() {
            return None;
        }
        category.push(row[idx].clone());
        k = k + 1;
        proof {
            let pre = layout@.category_idx.subrange(0, k - 1);
            let now = layout@.category_idx.subrange(0, k as int);
            assert(now.drop_last() =~= pre);
            assert(now.last() == idx as int);
            assert(category.deep_view() =~= cat0.push(row.deep_view()[idx as int]));
            assert(category.deep_view() =~= now.map_values(|j: int| row.deep_view()[j]));
        }
    }
    proof {
        assert(layout@.category_idx.subrange(0, layout.category_idx@.len() as int)
            =~= layout@.category_idx);
    }
    let date_op = match Date::from_yyyy_mm_dd(row[layout.date_op_idx].as_str(), layout.date_sep) {
        Some(d) => d,
        None => {
            return None;
        },
    };
    let date_val = match Date::from_yyyy_mm_dd(row[layout.date_val_idx].as_str(), layout.date_sep) {
        Some(d) => d,
        None => {
            return None;
        },
    };
    let amount = match parse_field_amount(row[layout.amount_idx].as_str(), layout.decimal_comma) {
        Some(a) => a,
        None => {
            return None;
        },
    };
    let account_number = match parse_u32_digits(row[layout.account_number_idx].as_str()) {
        Some(a) => a,
        None => {
            return None;
        },
    };
    let account_balance = match parse_field_amount(
        row[layout.account_balance_idx].as_str(),
        layout.decimal_comma,
    ) {
        Some(a) => a,
        None => {
            return None;
        },
    };
    let line = BankLine::new(
        date_op,
        date_val,
        row[layout.label_idx].clone(),
        category,
        row[layout.supplier_found_idx].clone(),
        amount,
        row[layout.comment_idx].clone(),
        account_number,
        row[layout.account_label_idx].clone(),
        account_balance,
    );
    proof {
        let bv = spec_row_line(row.deep_view(), layout@).unwrap();
        assert(line@.category == bv.category);
        assert(line@ =~= bv);
    }
    Some(line)
}

/// Maps a delimited export to its records under a layout: tokenizes the
/// bytes, keeps each row's record where every configured column resolves
/// and parses, and silently drops every other row, preserving row order.
/// It cannot fail as a whole: garbage in means an empty result, not an
/// error.
pub fn from_csv(data: &[u8], sep: u8, layout: &ColumnLayout) -> (r: Vec<BankLine>)
    ensures
        r@.map_values(|b: BankLine| b@) == spec_rows_lines(rows_of(data@, sep), layout@),
        data@.len() == 0 ==> r@.len() == 0,
{
    let rows = tokenize_rows(data, sep);
    let mut out: Vec<BankLine> = Vec::new();
    let mut i: usize = 0;
    proof {
        assert(rows.deep_view().subrange(0, 0) =~= Seq::<Seq<Seq<char>>>::empty());
        assert(out@.map_values(|b: BankLine| b@) =~= spec_rows_lines(
            rows.deep_view().subrange(0, 0),
            layout@,
        ));
    }
    while i < rows.len()
        invariant
            i <= rows.len(),
            rows.deep_view() == rows_of(data@, sep),
            rows.deep_view().len() == rows@.len(),
            out@.map_values(|b: BankLine| b@) == spec_rows_lines(
                rows.deep_view().subrange(0, i as int),
                layout@,
            ),
        decreases rows.len() - i,
    {
        let ghost out0 = out@.map_values(|b: BankLine| b@);
        proof {
            assert(rows.deep_view()[i as int] == rows@[i as int].deep_view());
        }
        match map_row(&rows[i], layout) {
            Some(line) => {
                out.push(line);
                proof {
                    assert(out@.map_values(|b: BankLine| b@) =~= out0.push(line@));
                }
            },
            None => {},
        }
        i = i + 1;
        proof {
            let pre = rows.deep_view().subrange(0, i - 1);
            let now = rows.deep_view().subrange(0, i as int);
            assert(now.drop_last() =~= pre);
            assert(now.last() == rows.deep_view()[i - 1]);
        }
    }
    proof {
        assert(rows.deep_view().subrange(0, rows@.len() as int) =~= rows.deep_view());
    }
    out
}

/// The Boursobank export format: semicolon-delimited, dates written
/// `YYYY-MM-DD` in columns 0 and 1, label in 2, category hierarchy taken
/// from columns 4 then 3, counterparty in 5, amount in 6 with a decimal
/// comma, comment in 7, account number in 8, account label in 9 and
/// balance in 10.
pub open spec fn spec_boursobank_layout() -> LayoutView {
    LayoutView {
        date_op_idx: 0,
        date_val_idx: 1,
        label_idx: 2,
        category_idx: seq![4int, 3int],
        supplier_found_idx: 5,
        amount_idx: 6,
        comment_idx: 7,
        account_number_idx: 8,
        account_label_idx: 9,
        account_balance_idx: 10,
        date_sep: '-',
        decimal_comma: true,
    }
}

/// The Boursobank column layout, per [`spec_boursobank_layout`].
pub fn boursobank_layout() -> (l: ColumnLayout)
    ensures
        l@ == spec_boursobank_layout(),
{
    let mut category_idx: Vec<usize> = Vec::new();
    category_idx.push(4);
    category_idx.push(3);
    let l = ColumnLayout {
        date_op_idx: 0,
        date_val_idx: 1,
        label_idx: 2,
        category_idx,
        supplier_found_idx: 5,
        amount_idx: 6,
        comment_idx: 7,
        account_number_idx: 8,
        account_label_idx: 9,
        account_balance_idx: 10,
        date_sep: '-',
        decimal_comma: true,
    };
    proof {
        assert(l@.category_idx =~= seq![4int, 3int]);
        assert(l@ =~= spec_boursobank_layout());
    }
    l
}

/// Reads a Boursobank export, per [`from_csv`] under
/// [`spec_boursobank_layout`]: every well-formed row becomes a record,
/// every other row is silently dropped.
pub fn from_boursobank_csv(data: &[u8]) -> (r: Vec<BankLine>)
    ensures
        r@.map_values(|b: BankLine| b@) == spec_rows_lines(
            rows_of(data@, ';' as u8),
            spec_boursobank_layout(),
        ),
        data@.len() == 0 ==> r@.len() == 0,
{
    let layout = boursobank_layout();
    from_csv(data, ';' as u8, &layout)
}

/// A row that the layout rejects — an out-of-range column or an
/// unparseable field, a non-numeric account number for instance — is
/// dropped on its own: the records of the other rows are exactly the
/// same, in the same order, as if the bad row had not been there.
pub proof fn lemma_rejected_row_dropped(rows: Seq<Seq<Seq<char>>>, l: LayoutView, i: int)
    requires
        0 <= i < rows.len(),
        spec_row_line(rows[i], l) is None,
    ensures
        spec_rows_lines(rows, l) == spec_rows_lines(rows.remove(i), l),
    decreases rows.len(),
{
    if i == rows.len() - 1 {
        assert(rows.remove(i) =~= rows.drop_last());
    } else {
        let r0 = rows.drop_last();
        lemma_rejected_row_dropped(r0, l, i);
        assert(rows.remove(i).drop_last() =~= r0.remove(i));
        assert(rows.remove(i).last() == rows.last());
    }
}

} // verus!

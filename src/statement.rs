//! Planning of insert statements: quoted column list, placeholders or
//! `DEFAULT`, and the parameters in placeholder order.

use vstd::prelude::*;
use crate::synth::{Value, ValueModel, ForeignRequest};

verus! {

/// The decimal text of one digit.
pub open spec fn digit_text(d: nat) -> Seq<char> {
    if d == 0 {
        "0"@
    } else if d == 1 {
        "1"@
    } else if d == 2 {
        "2"@
    } else if d == 3 {
        "3"@
    } else if d == 4 {
        "4"@
    } else if d == 5 {
        "5"@
    } else if d == 6 {
        "6"@
    } else if d == 7 {
        "7"@
    } else if d == 8 {
        "8"@
    } else {
        "9"@
    }
}

/// The decimal text of `n`, without leading zeros.
pub open spec fn decimal(n: nat) -> Seq<char>
    decreases n,
{
    if n < 10 {
        digit_text(n)
    } else {
        decimal(n / 10) + digit_text(n % 10)
    }
}

fn digit_str(d: u64) -> (r: &'static str)
    requires
        d < 10,
    ensures
        r@ == digit_text(d as nat),
{
    if d == 0 {
        "0"
    } else if d == 1 {
        "1"
    } else if d == 2 {
        "2"
    } else if d == 3 {
        "3"
    } else if d == 4 {
        "4"
    } else if d == 5 {
        "5"
    } else if d == 6 {
        "6"
    } else if d == 7 {
        "7"
    } else if d == 8 {
        "8"
    } else {
        "9"
    }
}

/// Appends the decimal text of `n` to `s`.
pub fn push_decimal(s: &mut String, n: u64)
    ensures
        final(s)@ == old(s)@ + decimal(n as nat),
    decreases n,
{
    if n >= 10 {
        push_decimal(s, n / 10);
        s.append(digit_str(n % 10));
        assert(final(s)@ =~= old(s)@ + decimal(n as nat));
    } else {
        s.append(digit_str(n));
    }
}

/// An identifier between double quotes.
pub open spec fn quoted(name: Seq<char>) -> Seq<char> {
    "\""@ + name + "\""@
}

fn push_quoted(s: &mut String, name: &String)
    ensures
        final(s)@ == old(s)@ + quoted(name@),
{
    s.append("\"");
    s.append(name.as_str());
    s.append("\"");
    assert(final(s)@ =~= old(s)@ + quoted(name@));
}

/// One column of a row to insert, with its value or `None` for `DEFAULT`.
#[derive(Debug, PartialEq, Eq)]
pub struct Slot {
    pub column: String,
    pub value: Option<Value>,
}

pub struct SlotModel {
    pub column: Seq<char>,
    pub value: Option<ValueModel>,
}

impl View for Slot {
    type V = SlotModel;

    open spec fn view(&self) -> SlotModel {
        SlotModel {
            column: self.column@,
            value: match self.value {
                Some(v) => Some(v@),
                None => None,
            },
        }
    }
}

pub open spec fn slots_view(slots: Seq<Slot>) -> Seq<SlotModel> {
    slots.map_values(|s: Slot| s@)
}

/// How many of `slots` carry a value.
pub open spec fn bound_count(slots: Seq<SlotModel>) -> nat
    decreases slots.len(),
{
    if slots.len() == 0 {
        0
    } else {
        bound_count(slots.drop_last()) + if slots.last().value is Some {
            1nat
        } else {
            0nat
        }
    }
}

/// The values of `slots`, in order, leaving out those without one.
pub open spec fn bound_values(slots: Seq<SlotModel>) -> Seq<ValueModel>
    decreases slots.len(),
{
    if slots.len() == 0 {
        seq![]
    } else if slots.last().value is Some {
        bound_values(slots.drop_last()).push(slots.last().value->0)
    } else {
        bound_values(slots.drop_last())
    }
}

/// The text standing for `slot`, the one after `before`: `DEFAULT`, or the
/// 1-based position of its value among the values, cast for JSON.
pub open spec fn placeholder(before: Seq<SlotModel>, slot: SlotModel) -> Seq<char> {
    match slot.value {
        None => "DEFAULT"@,
        Some(v) => "$"@ + decimal(bound_count(before) + 1) + if v is Json {
            "::JSON"@
        } else {
            seq![]
        },
    }
}

pub open spec fn column_list(slots: Seq<SlotModel>) -> Seq<char>
    decreases slots.len(),
{
    if slots.len() == 0 {
        seq![]
    } else if slots.len() == 1 {
        quoted(slots[0].column)
    } else {
        column_list(slots.drop_last()) + ", "@ + quoted(slots.last().column)
    }
}

pub open spec fn value_list(slots: Seq<SlotModel>) -> Seq<char>
    decreases slots.len(),
{
    if slots.len() == 0 {
        seq![]
    } else if slots.len() == 1 {
        placeholder(seq![], slots[0])
    } else {
        value_list(slots.drop_last()) + ", "@ + placeholder(slots.drop_last(), slots.last())
    }
}

/// The insert statement for `slots` into `table`, asking for `returning` back if given.
pub open spec fn insert_statement(table: Seq<char>, slots: Seq<SlotModel>, returning: Option<Seq<char>>) -> Seq<char> {
    "INSERT INTO "@ + quoted(table) + " ("@ + column_list(slots) + ") VALUES ("@ + value_list(slots) + ")"@
        + match returning {
        Some(c) => " RETURNING "@ + quoted(c),
        None => seq![],
    }
}

/// A statement and its parameters, in placeholder order.
#[derive(Debug, PartialEq, Eq)]
pub struct InsertPlan {
    pub statement: String,
    pub params: Vec<Value>,
}

/// Plans the insert of one row.
pub fn plan_insert(table: &String, slots: &Vec<Slot>, returning: &Option<String>) -> (r: InsertPlan)
    ensures
        r.statement@ == insert_statement(
            table@,
            slots_view(slots@),
            match returning {
                Some(c) => Some(c@),
                None => None,
            },
        ),
        r.params@.map_values(|v: Value| v@) == bound_values(slots_view(slots@)),
{
    let ghost sv = slots_view(slots@);
    let mut columns = String::new();
    let mut values = String::new();
    let mut params: Vec<Value> = Vec::new();
    let mut count: u64 = 0;
    let mut i: usize = 0;
    while i < slots.len()
        invariant
            i <= slots@.len(),
            sv == slots_view(slots@),
            count == bound_count(sv.take(i as int)),
            count <= i,
            columns@ == column_list(sv.take(i as int)),
            values@ == value_list(sv.take(i as int)),
            params@.map_values(|v: Value| v@) =~= bound_values(sv.take(i as int)),
        decreases slots@.len() - i,
    {
        let ghost prefix = sv.take(i as int);
        assert(sv.take(i + 1).drop_last() =~= prefix);
        assert(sv.take(i + 1).last() == slots@[i as int]@);
        if i > 0 {
            columns.append(", ");
            values.append(", ");
        }
        let slot = &slots[i];
        push_quoted(&mut columns, &slot.column);
        match &slot.value {
            None => {
                values.append("DEFAULT");
            },
            Some(v) => {
                values.append("$");
                push_decimal(&mut values, count + 1);
                if let Value::Json(_) = v {
                    values.append("::JSON");
                }
                params.push(v.duplicate());
                count = count + 1;
            },
        }
        if i == 0 {
            assert(sv.take(1) =~= seq![sv[0]]);
            assert(columns@ =~= column_list(sv.take(1)));
            assert(values@ =~= value_list(sv.take(1)));
        } else {
            assert(columns@ =~= column_list(sv.take(i + 1)));
            assert(values@ =~= value_list(sv.take(i + 1)));
        }
        i = i + 1;
    }
    assert(sv.take(slots@.len() as int) =~= sv);
    let mut statement = String::new();
    statement.append("INSERT INTO ");
    push_quoted(&mut statement, table);
    statement.append(" (");
    statement.append(columns.as_str());
    statement.append(") VALUES (");
    statement.append(values.as_str());
    statement.append(")");
    if let Some(c) = returning {
        statement.append(" RETURNING ");
        push_quoted(&mut statement, c);
    }
    assert(statement@ =~= insert_statement(
        table@,
        sv,
        match returning {
            Some(c) => Some(c@),
            None => None,
        },
    ));
    InsertPlan { statement, params }
}


/// `SELECT count(*) FROM "table"`.
pub open spec fn count_statement(table: Seq<char>) -> Seq<char> {
    "SELECT count(*) FROM "@ + quoted(table)
}

/// `SELECT "column" FROM "table" LIMIT 1 OFFSET offset`.
pub open spec fn fetch_statement(table: Seq<char>, column: Seq<char>, offset: nat) -> Seq<char> {
    "SELECT "@ + quoted(column) + " FROM "@ + quoted(table) + " LIMIT 1 OFFSET "@ + decimal(offset)
}

impl ForeignRequest {
    /// The statement counting the rows of the referenced table.
    pub fn count_sql(&self) -> (r: String)
        ensures
            r@ == count_statement(self.table@),
    {
        let mut s = String::new();
        s.append("SELECT count(*) FROM ");
        push_quoted(&mut s, &self.table);
        assert(s@ =~= count_statement(self.table@));
        s
    }

    /// The statement fetching the referenced column of the row at `offset`.
    pub fn fetch_sql(&self, offset: u64) -> (r: String)
        ensures
            r@ == fetch_statement(self.table@, self.column@, offset as nat),
    {
        let mut s = String::new();
        s.append("SELECT ");
        push_quoted(&mut s, &self.column);
        s.append(" FROM ");
        push_quoted(&mut s, &self.table);
        s.append(" LIMIT 1 OFFSET ");
        push_decimal(&mut s, offset);
        assert(s@ =~= fetch_statement(self.table@, self.column@, offset as nat));
        s
    }
}

} // verus!

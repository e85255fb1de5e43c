//! The pull-request table of a remote-repository connector, reduced to
//! plain values: the table's field definitions, and the materialization of
//! fetched pull-request records into one columnar block. The connector
//! that talks to the remote API stays outside the library and hands
//! records in as the plain values below.

use vstd::prelude::*;

use crate::block::Block;
use crate::block::Column;
use crate::block::ColumnView;
use crate::value::clone_bytes;
use crate::value::Value;
use crate::value::ValueKind;
use crate::value::ValueView;

verus! {

/// One field of a table schema.
#[derive(Clone, Debug, PartialEq)]
pub struct FieldDef {
    pub name: String,
    pub kind: ValueKind,
    pub nullable: bool,
}

/// State of a pull request as the remote API reports it.
#[derive(Clone, Copy, Debug, PartialEq, Eq, Structural)]
pub enum PrState {
    Open,
    Closed,
    Other,
}

/// One pull request, reduced to the plain values the table carries.
#[derive(Clone, Debug, PartialEq)]
pub struct PrRecord {
    pub number: u64,
    pub title: Option<Vec<u8>>,
    pub state: Option<PrState>,
    pub user: Option<Vec<u8>>,
    pub labels: Option<Vec<Vec<u8>>>,
    pub assignees: Option<Vec<Vec<u8>>>,
}

/// The mathematical shape of one record.
pub struct PrRecordView {
    pub number: u64,
    pub title: Option<Seq<u8>>,
    pub state: Option<PrState>,
    pub user: Option<Seq<u8>>,
    pub labels: Option<Seq<Seq<u8>>>,
    pub assignees: Option<Seq<Seq<u8>>>,
}

impl View for PrRecord {
    type V = PrRecordView;

    open spec fn view(&self) -> PrRecordView {
        PrRecordView {
            number: self.number,
            title: self.title.deep_view(),
            state: self.state,
            user: self.user.deep_view(),
            labels: self.labels.deep_view(),
            assignees: self.assignees.deep_view(),
        }
    }
}

impl DeepView for PrRecord {
    type V = PrRecordView;

    open spec fn deep_view(&self) -> PrRecordView {
        self.view()
    }
}

/// An absent byte string is stored as the empty string.
pub open spec fn spec_opt_bytes(o: Option<Seq<u8>>) -> Seq<u8> {
    match o {
        None => Seq::empty(),
        Some(b) => b,
    }
}

/// How a pull-request state is stored: its name, or `Unknown` where the
/// API reported none or one this table does not know.
pub open spec fn spec_state_bytes(st: Option<PrState>) -> Seq<u8> {
    match st {
        Some(PrState::Open) => seq![79u8, 112u8, 101u8, 110u8],  // the ASCII bytes of "Open"
        Some(PrState::Closed) => seq![67u8, 108u8, 111u8, 115u8, 101u8, 100u8],  // "Closed"
        _ => seq![85u8, 110u8, 107u8, 110u8, 111u8, 119u8, 110u8],  // "Unknown"
    }
}

/// A name list is stored as the names each followed by one comma.
pub open spec fn spec_join(items: Seq<Seq<u8>>) -> Seq<u8>
    decreases items.len(),
{
    if items.len() == 0 {
        Seq::empty()
    } else {
        spec_join(items.drop_last()) + items.last() + seq![44u8]  // a comma after each name
    }
}

/// An absent name list is stored as one space.
pub open spec fn spec_list_bytes(o: Option<Seq<Seq<u8>>>) -> Seq<u8> {
    match o {
        None => seq![32u8],  // one space
        Some(items) => spec_join(items),
    }
}

/// The block a record sequence materializes to: six columns in table
/// order, one value per record each.
pub open spec fn spec_pr_block(recs: Seq<PrRecordView>) -> Seq<ColumnView> {
    seq![
        ColumnView {
            name: "number"@,
            values: Seq::new(recs.len(), |i: int| ValueView::UInt64(recs[i].number)),
        },
        ColumnView {
            name: "title"@,
            values: Seq::new(recs.len(), |i: int| ValueView::Utf8(spec_opt_bytes(recs[i].title))),
        },
        ColumnView {
            name: "state"@,
            values: Seq::new(
                recs.len(),
                |i: int| ValueView::Utf8(spec_state_bytes(recs[i].state)),
            ),
        },
        ColumnView {
            name: "user"@,
            values: Seq::new(recs.len(), |i: int| ValueView::Utf8(spec_opt_bytes(recs[i].user))),
        },
        ColumnView {
            name: "labels"@,
            values: Seq::new(
                recs.len(),
                |i: int| ValueView::Utf8(spec_list_bytes(recs[i].labels)),
            ),
        },
        ColumnView {
            name: "assigness"@,
            values: Seq::new(
                recs.len(),
                |i: int| ValueView::Utf8(spec_list_bytes(recs[i].assignees)),
            ),
        },
    ]
}

/// The six fields of the pull-request table, in order.
pub fn repo_prs_schema() -> (r: Vec<FieldDef>)
    ensures
        r@.len() == 6,
        r@[0].name@ == "number"@ && r@[0].kind == ValueKind::UInt64 && !r@[0].nullable,
        r@[1].name@ == "title"@ && r@[1].kind == ValueKind::Utf8 && r@[1].nullable,
        r@[2].name@ == "state"@ && r@[2].kind == ValueKind::Utf8 && r@[2].nullable,
        r@[3].name@ == "user"@ && r@[3].kind == ValueKind::Utf8 && r@[3].nullable,
        r@[4].name@ == "labels"@ && r@[4].kind == ValueKind::Utf8 && r@[4].nullable,
        r@[5].name@ == "assigness"@ && r@[5].kind == ValueKind::Utf8 && r@[5].nullable,
{
    let mut r: Vec<FieldDef> = Vec::new();
    r.push(
        FieldDef { name: String::from_str("number"), kind: ValueKind::UInt64, nullable: false },
    );
    r.push(FieldDef { name: String::from_str("title"), kind: ValueKind::Utf8, nullable: true });
    r.push(FieldDef { name: String::from_str("state"), kind: ValueKind::Utf8, nullable: true });
    r.push(FieldDef { name: String::from_str("user"), kind: ValueKind::Utf8, nullable: true });
    r.push(FieldDef { name: String::from_str("labels"), kind: ValueKind::Utf8, nullable: true });
    r.push(
        FieldDef { name: String::from_str("assigness"), kind: ValueKind::Utf8, nullable: true },
    );
    r
}

fn opt_bytes(o: &Option<Vec<u8>>) -> (r: Vec<u8>)
    ensures
        r@ == spec_opt_bytes(o.deep_view()),
{
    match o {
        None => {
            let r: Vec<u8> = Vec::new();
            proof {
                assert(r@ =~= Seq::<u8>::empty());
            }
            r
        },
        Some(b) => clone_bytes(b),
    }
}

fn state_bytes(st: &Option<PrState>) -> (r: Vec<u8>)
    ensures
        r@ == spec_state_bytes(*st),
{
    let mut r: Vec<u8> = Vec::new();
    match st {
        Some(PrState::Open) => {
            r.push(79u8);
            r.push(112u8);
            r.push(101u8);
            r.push(110u8);
            proof {
                assert(r@ =~= spec_state_bytes(*st));
            }
        },
        Some(PrState::Closed) => {
            r.push(67u8);
            r.push(108u8);
            r.push(111u8);
            r.push(115u8);
            r.push(101u8);
            r.push(100u8);
            proof {
                assert(r@ =~= spec_state_bytes(*st));
            }
        },
        _ => {
            r.push(85u8);
            r.push(110u8);
            r.push(107u8);
            r.push(110u8);
            r.push(111u8);
            r.push(119u8);
            r.push(110u8);
            proof {
                assert(r@ =~= spec_state_bytes(*st));
            }
        },
    }
    r
}

fn join_list(items: &Vec<Vec<u8>>) -> (r: Vec<u8>)
    ensures
        r@ == spec_join(items.deep_view()),
{
    let ghost dv = items.deep_view();
    let mut r: Vec<u8> = Vec::new();
    let mut i: usize = 0;
    proof {
        assert(dv.len() == items@.len());
        assert(dv.take(0) =~= Seq::<Seq<u8>>::empty());
        assert(r@ =~= spec_join(dv.take(0)));
    }
    while i < items.len()
        invariant
            0 <= i <= items@.len(),
            dv == items.deep_view(),
            dv.len() == items@.len(),
            r@ == spec_join(dv.take(i as int)),
        decreases items@.len() - i,
    {
        proof {
            assert(dv[i as int] == items@[i as int]@);
            assert(dv.take(i as int + 1).drop_last() =~= dv.take(i as int));
            assert(dv.take(i as int + 1).last() == dv[i as int]);
        }
        let mut chunk = clone_bytes(&items[i]);
        r.append(&mut chunk);
        r.push(44u8);
        i += 1;
        proof {
            assert(r@ =~= spec_join(dv.take(i as int)));
        }
    }
    proof {
        assert(dv.take(items@.len() as int) =~= dv);
    }
    r
}

fn list_bytes(o: &Option<Vec<Vec<u8>>>) -> (r: Vec<u8>)
    ensures
        r@ == spec_list_bytes(o.deep_view()),
{
    match o {
        None => {
            let mut r: Vec<u8> = Vec::new();
            r.push(32u8);
            proof {
                assert(r@ =~= seq![32u8]);
            }
            r
        },
        Some(items) => join_list(items),
    }
}

/// Materialize fetched pull-request records into one columnar block with
/// the table's six columns, one row per record, in input order.
pub fn prs_to_block(prs: &Vec<PrRecord>) -> (r: Block)
    ensures
        r@ == spec_pr_block(prs.deep_view()),
{
    let ghost dv = prs.deep_view();
    let mut numbers: Vec<Value> = Vec::new();
    let mut titles: Vec<Value> = Vec::new();
    let mut states: Vec<Value> = Vec::new();
    let mut users: Vec<Value> = Vec::new();
    let mut labels: Vec<Value> = Vec::new();
    let mut assignees: Vec<Value> = Vec::new();
    let mut i: usize = 0;
    proof {
        assert(dv.len() == prs@.len());
    }
    while i < prs.len()
        invariant
            0 <= i <= prs@.len(),
            dv == prs.deep_view(),
            dv.len() == prs@.len(),
            numbers.deep_view() =~= Seq::new(
                i as nat,
                |k: int| ValueView::UInt64(dv[k].number),
            ),
            titles.deep_view() =~= Seq::new(
                i as nat,
                |k: int| ValueView::Utf8(spec_opt_bytes(dv[k].title)),
            ),
            states.deep_view() =~= Seq::new(
                i as nat,
                |k: int| ValueView::Utf8(spec_state_bytes(dv[k].state)),
            ),
            users.deep_view() =~= Seq::new(
                i as nat,
                |k: int| ValueView::Utf8(spec_opt_bytes(dv[k].user)),
            ),
            labels.deep_view() =~= Seq::new(
                i as nat,
                |k: int| ValueView::Utf8(spec_list_bytes(dv[k].labels)),
            ),
            assignees.deep_view() =~= Seq::new(
                i as nat,
                |k: int| ValueView::Utf8(spec_list_bytes(dv[k].assignees)),
            ),
        decreases prs@.len() - i,
    {
        let p = &prs[i];
        let ghost n0 = numbers.deep_view();
        let ghost t0 = titles.deep_view();
        let ghost s0 = states.deep_view();
        let ghost u0 = users.deep_view();
        let ghost l0 = labels.deep_view();
        let ghost a0 = assignees.deep_view();
        proof {
            assert(dv[i as int] == prs@[i as int]@);
        }
        numbers.push(Value::UInt64(p.number));
        titles.push(Value::Utf8(opt_bytes(&p.title)));
        states.push(Value::Utf8(state_bytes(&p.state)));
        users.push(Value::Utf8(opt_bytes(&p.user)));
        labels.push(Value::Utf8(list_bytes(&p.labels)));
        assignees.push(Value::Utf8(list_bytes(&p.assignees)));
        i += 1;
        proof {
            let k0 = i as int - 1;
            assert(numbers.deep_view() =~= n0.push(ValueView::UInt64(dv[k0].number)));
            assert(n0.push(ValueView::UInt64(dv[k0].number)) =~= Seq::new(
                i as nat,
                |k: int| ValueView::UInt64(dv[k].number),
            ));
            assert(titles.deep_view() =~= t0.push(
                ValueView::Utf8(spec_opt_bytes(dv[k0].title)),
            ));
            assert(t0.push(ValueView::Utf8(spec_opt_bytes(dv[k0].title))) =~= Seq::new(
                i as nat,
                |k: int| ValueView::Utf8(spec_opt_bytes(dv[k].title)),
            ));
            assert(states.deep_view() =~= s0.push(
                ValueView::Utf8(spec_state_bytes(dv[k0].state)),
            ));
            assert(s0.push(ValueView::Utf8(spec_state_bytes(dv[k0].state))) =~= Seq::new(
                i as nat,
                |k: int| ValueView::Utf8(spec_state_bytes(dv[k].state)),
            ));
            assert(users.deep_view() =~= u0.push(
                ValueView::Utf8(spec_opt_bytes(dv[k0].user)),
            ));
            assert(u0.push(ValueView::Utf8(spec_opt_bytes(dv[k0].user))) =~= Seq::new(
                i as nat,
                |k: int| ValueView::Utf8(spec_opt_bytes(dv[k].user)),
            ));
            assert(labels.deep_view() =~= l0.push(
                ValueView::Utf8(spec_list_bytes(dv[k0].labels)),
            ));
            assert(l0.push(ValueView::Utf8(spec_list_bytes(dv[k0].labels))) =~= Seq::new(
                i as nat,
                |k: int| ValueView::Utf8(spec_list_bytes(dv[k].labels)),
            ));
            assert(assignees.deep_view() =~= a0.push(
                ValueView::Utf8(spec_list_bytes(dv[k0].assignees)),
            ));
            assert(a0.push(ValueView::Utf8(spec_list_bytes(dv[k0].assignees))) =~= Seq::new(
                i as nat,
                |k: int| ValueView::Utf8(spec_list_bytes(dv[k].assignees)),
            ));
        }
    }
    let mut columns: Vec<Column> = Vec::new();
    columns.push(Column { name: String::from_str("number"), values: numbers });
    columns.push(Column { name: String::from_str("title"), values: titles });
    columns.push(Column { name: String::from_str("state"), values: states });
    columns.push(Column { name: String::from_str("user"), values: users });
    columns.push(Column { name: String::from_str("labels"), values: labels });
    columns.push(Column { name: String::from_str("assigness"), values: assignees });
    let b = Block { columns };
    proof {
        assert(b@ =~~= spec_pr_block(dv));
    }
    b
}

} // verus!

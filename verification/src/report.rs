//! The contract report aggregator. Per contract, each interface entry is
//! classified by kind, canonicalized and hashed, and the derived identifier
//! is appended — in declaration order — to the events table or the
//! functions table. Each table starts with a fixed header row; each
//! processed contract contributes exactly one divider row to each table,
//! followed by that contract's data rows.

use vstd::prelude::*;

use crate::abi::{EntryKind, EntryModel, InterfaceEntry};
use crate::digest::{derive_selector, derive_topic, spec_selector_ident, spec_topic_ident};
use crate::sig::{canonical_signature, spec_entry_signature};

verus! {

/// One derived identifier: the signature text as it appears in the report
/// (for an anonymous event, suffixed for display) and the `0x`-prefixed hex
/// identifier.
#[derive(Clone, Debug)]
pub struct DerivedIdentifier {
    pub text: String,
    pub ident: String,
}

/// The mathematical model of a [`DerivedIdentifier`].
pub ghost struct DerivedIdentifierModel {
    pub text: Seq<char>,
    pub ident: Seq<char>,
}

impl View for DerivedIdentifier {
    type V = DerivedIdentifierModel;

    open spec fn view(&self) -> DerivedIdentifierModel {
        DerivedIdentifierModel { text: self.text@, ident: self.ident@ }
    }
}

impl DeepView for DerivedIdentifier {
    type V = DerivedIdentifierModel;

    open spec fn deep_view(&self) -> DerivedIdentifierModel {
        self.view()
    }
}

/// One row of a report table: three text fields.
#[derive(Clone, Debug)]
pub struct Row {
    pub col0: String,
    pub col1: String,
    pub col2: String,
}

/// The mathematical model of a [`Row`].
pub ghost struct RowModel {
    pub col0: Seq<char>,
    pub col1: Seq<char>,
    pub col2: Seq<char>,
}

impl View for Row {
    type V = RowModel;

    open spec fn view(&self) -> RowModel {
        RowModel { col0: self.col0@, col1: self.col1@, col2: self.col2@ }
    }
}

impl DeepView for Row {
    type V = RowModel;

    open spec fn deep_view(&self) -> RowModel {
        self.view()
    }
}

/// The signature text under which an event appears in the report: the
/// canonical signature, with the display-only suffix ` [anonymous]` for an
/// anonymous event. The topic is always derived from the unsuffixed
/// signature.
pub open spec fn spec_event_display(e: EntryModel) -> Seq<char> {
    if e.anonymous {
        spec_entry_signature(e) + " [anonymous]"@
    } else {
        spec_entry_signature(e)
    }
}

/// The identifier pair an event entry contributes to the events table.
pub open spec fn spec_event_identifier(e: EntryModel) -> DerivedIdentifierModel {
    DerivedIdentifierModel {
        text: spec_event_display(e),
        ident: spec_topic_ident(spec_entry_signature(e)),
    }
}

/// Law: an anonymous event appears in the report under its signature with
/// the display-only suffix ` [anonymous]`, while its topic is derived from
/// the unsuffixed canonical signature.
pub proof fn lemma_anonymous_event_display(e: EntryModel)
    requires
        e.anonymous,
    ensures
        spec_event_identifier(e).text == spec_entry_signature(e) + " [anonymous]"@,
        spec_event_identifier(e).ident == spec_topic_ident(spec_entry_signature(e)),
{
}

/// The identifier pair a function entry contributes to the functions table.
pub open spec fn spec_function_identifier(e: EntryModel) -> DerivedIdentifierModel {
    DerivedIdentifierModel {
        text: spec_entry_signature(e),
        ident: spec_selector_ident(spec_entry_signature(e)),
    }
}

/// The derived identifiers of the event entries, in declaration order;
/// entries of any other kind contribute nothing.
pub open spec fn spec_event_identifiers(es: Seq<EntryModel>) -> Seq<DerivedIdentifierModel>
    decreases es.len(),
{
    if es.len() == 0 {
        Seq::empty()
    } else {
        spec_event_identifiers(es.drop_last()) + (if es.last().kind is Event {
            seq![spec_event_identifier(es.last())]
        } else {
            Seq::empty()
        })
    }
}

/// The derived identifiers of the function entries, in declaration order;
/// entries of any other kind contribute nothing.
pub open spec fn spec_function_identifiers(es: Seq<EntryModel>) -> Seq<DerivedIdentifierModel>
    decreases es.len(),
{
    if es.len() == 0 {
        Seq::empty()
    } else {
        spec_function_identifiers(es.drop_last()) + (if es.last().kind is Function {
            seq![spec_function_identifier(es.last())]
        } else {
            Seq::empty()
        })
    }
}

/// A contract's report: its name and its derived event and function
/// identifiers, each in the order the entries appeared in the interface.
#[derive(Clone, Debug)]
pub struct ContractReport {
    pub name: String,
    pub events: Vec<DerivedIdentifier>,
    pub functions: Vec<DerivedIdentifier>,
}

/// One contract's parsed interface, under the contract's name.
#[derive(Clone, Debug)]
pub struct ContractInterface {
    pub name: String,
    pub entries: Vec<InterfaceEntry>,
}

/// The mathematical model of a [`ContractInterface`].
pub ghost struct ContractModel {
    pub name: Seq<char>,
    pub entries: Seq<EntryModel>,
}

impl View for ContractInterface {
    type V = ContractModel;

    open spec fn view(&self) -> ContractModel {
        ContractModel { name: self.name@, entries: self.entries.deep_view() }
    }
}

impl DeepView for ContractInterface {
    type V = ContractModel;

    open spec fn deep_view(&self) -> ContractModel {
        self.view()
    }
}

/// Classifies, canonicalizes and hashes every entry of one contract's
/// interface: the result carries the contract's event and function
/// identifiers, each sequence in declaration order. Entries of kind `Other`
/// are silently skipped.
pub fn analyze_contract(name: String, entries: &Vec<InterfaceEntry>) -> (r: ContractReport)
    ensures
        r.name@ == name@,
        r.events.deep_view() == spec_event_identifiers(entries.deep_view()),
        r.functions.deep_view() == spec_function_identifiers(entries.deep_view()),
{
    let ghost models: Seq<EntryModel> = entries.deep_view();
    let mut events: Vec<DerivedIdentifier> = Vec::new();
    let mut functions: Vec<DerivedIdentifier> = Vec::new();
    let n = entries.len();
    for i in 0..n
        invariant
            n == entries.len(),
            models == entries.deep_view(),
            events.deep_view() == spec_event_identifiers(models.take(i as int)),
            functions.deep_view() == spec_function_identifiers(models.take(i as int)),
    {
        let entry = &entries[i];
        match entry.kind {
            EntryKind::Function => {
                let signature = canonical_signature(entry);
                let ident = derive_selector(signature.as_str());
                functions.push(DerivedIdentifier { text: signature, ident });
            },
            EntryKind::Event => {
                let signature = canonical_signature(entry);
                let ident = derive_topic(signature.as_str());
                let text = if entry.anonymous {
                    let mut t = signature;
                    t.append(" [anonymous]");
                    t
                } else {
                    signature
                };
                events.push(DerivedIdentifier { text, ident });
            },
            EntryKind::Other => {},
        }
        proof {
            assert(models.take(i + 1).drop_last() =~= models.take(i as int));
            assert(models.take(i + 1).last() == models[i as int]);
            assert(events.deep_view() =~= spec_event_identifiers(models.take(i + 1)));
            assert(functions.deep_view() =~= spec_function_identifiers(models.take(i + 1)));
        }
    }
    proof {
        assert(models.take(n as int) =~= models);
    }
    ContractReport { name, events, functions }
}

/// The divider row a contract contributes to each table: its name in the
/// first field, the other two fields empty.
pub open spec fn spec_divider_row(name: Seq<char>) -> RowModel {
    RowModel { col0: name, col1: Seq::empty(), col2: Seq::empty() }
}

/// The data row of one derived identifier: an empty first field, then the
/// signature text and the identifier.
pub open spec fn spec_data_row(d: DerivedIdentifierModel) -> RowModel {
    RowModel { col0: Seq::empty(), col1: d.text, col2: d.ident }
}

/// The rows one contract contributes to a table: its divider row, then one
/// data row per derived identifier, in order.
pub open spec fn spec_block(name: Seq<char>, ds: Seq<DerivedIdentifierModel>) -> Seq<RowModel> {
    seq![spec_divider_row(name)] + Seq::new(ds.len(), |i: int| spec_data_row(ds[i]))
}

/// The fixed header row of the events table.
pub open spec fn spec_events_header() -> RowModel {
    RowModel { col0: "contractName"@, col1: "event"@, col2: "topic"@ }
}

/// The fixed header row of the functions table.
pub open spec fn spec_functions_header() -> RowModel {
    RowModel { col0: "contractName"@, col1: "function"@, col2: "selector"@ }
}

/// The whole events table of a sequence of contracts: the header row, then
/// each contract's block in discovery order.
pub open spec fn spec_events_table(cs: Seq<ContractModel>) -> Seq<RowModel>
    decreases cs.len(),
{
    if cs.len() == 0 {
        seq![spec_events_header()]
    } else {
        spec_events_table(cs.drop_last()) + spec_block(
            cs.last().name,
            spec_event_identifiers(cs.last().entries),
        )
    }
}

/// The whole functions table of a sequence of contracts: the header row,
/// then each contract's block in discovery order.
pub open spec fn spec_functions_table(cs: Seq<ContractModel>) -> Seq<RowModel>
    decreases cs.len(),
{
    if cs.len() == 0 {
        seq![spec_functions_header()]
    } else {
        spec_functions_table(cs.drop_last()) + spec_block(
            cs.last().name,
            spec_function_identifiers(cs.last().entries),
        )
    }
}

/// Appends one contract's block to a table: the divider row carrying the
/// contract's name, then one data row per derived identifier, in order.
fn append_block(name: &String, ds: &Vec<DerivedIdentifier>, table: &mut Vec<Row>)
    ensures
        final(table).deep_view() == old(table).deep_view() + spec_block(name@, ds.deep_view()),
{
    let ghost models: Seq<DerivedIdentifierModel> = ds.deep_view();
    let ghost table0: Seq<RowModel> = table.deep_view();
    table.push(Row { col0: name.clone(), col1: String::new(), col2: String::new() });
    let n = ds.len();
    for i in 0..n
        invariant
            n == ds.len(),
            models == ds.deep_view(),
            table.deep_view() =~= table0 + seq![spec_divider_row(name@)] + Seq::new(
                i as nat,
                |j: int| spec_data_row(models[j]),
            ),
    {
        let ghost pre: Seq<RowModel> = table.deep_view();
        let row = Row { col0: String::new(), col1: ds[i].text.clone(), col2: ds[i].ident.clone() };
        proof {
            assert(row.deep_view() == spec_data_row(models[i as int]));
        }
        table.push(row);
        proof {
            assert(table.deep_view() =~= pre.push(spec_data_row(models[i as int])));
            assert(table.deep_view() =~= table0 + seq![spec_divider_row(name@)] + Seq::new(
                (i + 1) as nat,
                |j: int| spec_data_row(models[j]),
            ));
        }
    }
    proof {
        assert(table.deep_view() =~= old(table).deep_view() + spec_block(name@, ds.deep_view()));
    }
}

/// Appends one contract's report to the two tables: exactly one divider row
/// in each, then that contract's data rows, in declaration order.
pub fn append_report(report: &ContractReport, events: &mut Vec<Row>, functions: &mut Vec<Row>)
    ensures
        final(events).deep_view() == old(events).deep_view() + spec_block(
            report.name@,
            report.events.deep_view(),
        ),
        final(functions).deep_view() == old(functions).deep_view() + spec_block(
            report.name@,
            report.functions.deep_view(),
        ),
{
    append_block(&report.name, &report.events, events);
    append_block(&report.name, &report.functions, functions);
}

/// Builds the two report tables for a sequence of contract interfaces in
/// discovery order: each table holds its header row, then one block per
/// contract — the divider row, then the contract's derived identifiers as
/// data rows in declaration order.
pub fn build_reports(contracts: &Vec<ContractInterface>) -> (r: (Vec<Row>, Vec<Row>))
    ensures
        r.0.deep_view() == spec_events_table(contracts.deep_view()),
        r.1.deep_view() == spec_functions_table(contracts.deep_view()),
{
    let ghost models: Seq<ContractModel> = contracts.deep_view();
    let mut events: Vec<Row> = Vec::new();
    let mut functions: Vec<Row> = Vec::new();
    events.push(
        Row {
            col0: String::from_str("contractName"),
            col1: String::from_str("event"),
            col2: String::from_str("topic"),
        },
    );
    functions.push(
        Row {
            col0: String::from_str("contractName"),
            col1: String::from_str("function"),
            col2: String::from_str("selector"),
        },
    );
    proof {
        assert(events.deep_view() =~= spec_events_table(models.take(0)));
        assert(functions.deep_view() =~= spec_functions_table(models.take(0)));
    }
    let n = contracts.len();
    for i in 0..n
        invariant
            n == contracts.len(),
            models == contracts.deep_view(),
            events.deep_view() == spec_events_table(models.take(i as int)),
            functions.deep_view() == spec_functions_table(models.take(i as int)),
    {
        let contract = &contracts[i];
        let report = analyze_contract(contract.name.clone(), &contract.entries);
        append_report(&report, &mut events, &mut functions);
        proof {
            assert(models.take(i + 1).drop_last() =~= models.take(i as int));
            assert(models.take(i + 1).last() == models[i as int]);
        }
    }
    proof {
        assert(models.take(n as int) =~= models);
    }
    (events, functions)
}

/// Law: tables grow with discovery order. Processing one more contract
/// appends exactly that contract's block after the rows of the contracts
/// before it, in each table; nothing earlier moves.
pub proof fn lemma_tables_extend(cs: Seq<ContractModel>, c: ContractModel)
    ensures
        spec_events_table(cs.push(c)) == spec_events_table(cs) + spec_block(
            c.name,
            spec_event_identifiers(c.entries),
        ),
        spec_functions_table(cs.push(c)) == spec_functions_table(cs) + spec_block(
            c.name,
            spec_function_identifiers(c.entries),
        ),
{
    assert(cs.push(c).drop_last() =~= cs);
    assert(cs.push(c).last() == c);
}

/// Law: within a contract, rows keep entry declaration order. One more
/// interface entry appends its derived identifier (if its kind belongs to
/// the table) after those of the entries before it; nothing earlier moves.
pub proof fn lemma_identifiers_extend(es: Seq<EntryModel>, e: EntryModel)
    ensures
        spec_event_identifiers(es.push(e)) == spec_event_identifiers(es) + (if e.kind is Event {
            seq![spec_event_identifier(e)]
        } else {
            Seq::empty()
        }),
        spec_function_identifiers(es.push(e)) == spec_function_identifiers(es) + (
        if e.kind is Function {
            seq![spec_function_identifier(e)]
        } else {
            Seq::empty()
        }),
{
    assert(es.push(e).drop_last() =~= es);
    assert(es.push(e).last() == e);
}

/// Law: divider presence. A contract's block in either table holds exactly
/// one divider row — the first, carrying the contract's name — followed by
/// one data row per derived identifier; the block is there, one row long,
/// even when the contract contributes no identifier of that table's kind,
/// and every data row has an empty first field.
pub proof fn lemma_divider_presence(name: Seq<char>, ds: Seq<DerivedIdentifierModel>)
    ensures
        spec_block(name, ds).len() == 1 + ds.len(),
        spec_block(name, ds)[0] == spec_divider_row(name),
        forall|i: int|
            1 <= i < spec_block(name, ds).len() ==> #[trigger] spec_block(name, ds)[i]
                == spec_data_row(ds[i - 1]),
{
}

} // verus!

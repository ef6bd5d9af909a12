//! Properties of the store's operations, stated over the models that their
//! contracts use.
use vstd::prelude::*;

use crate::data::{merge, rendered, EntryModel, RegisterModel, Selectors, ValueModel};
use crate::store::{clear_removes, cleared, entry_before, replaced, section_or_empty, updated, StoreModel};

verus! {

/// Clearing the same target twice leaves the store as clearing it once, and
/// the second clear removes nothing, so it asks for no write.
pub proof fn lemma_clear_idempotent(m: StoreModel, s: Seq<char>, r: Option<Seq<char>>)
    ensures
        cleared(cleared(m, s, r), s, r) == cleared(m, s, r),
        !clear_removes(cleared(m, s, r), s, r),
{
    let once = cleared(m, s, r);
    match r {
        None => {
            assert(once.remove(s) =~= once);
        },
        Some(reg) => {
            if m.contains_key(s) {
                assert(once[s].remove(reg) =~= once[s]);
                assert(once.insert(s, once[s].remove(reg)) =~= once);
            }
        },
    }
}

/// Clearing in a section that does not exist changes nothing and asks for no write.
pub proof fn lemma_clear_absent_section(m: StoreModel, s: Seq<char>, r: Option<Seq<char>>)
    requires
        !m.contains_key(s),
    ensures
        cleared(m, s, r) == m,
        !clear_removes(m, s, r),
{
    assert(m.remove(s) =~= m);
}

/// An update touches one entry: each field it sets takes the new value, each
/// field it leaves out keeps the old one, and every other register and
/// section stays as it was.
pub proof fn lemma_update_merges(m: StoreModel, s: Seq<char>, r: Seq<char>, fields: EntryModel)
    ensures
        ({
            let after = updated(m, s, r, fields);
            let before = entry_before(m, s, r);
            &&& after.contains_key(s)
            &&& after[s].contains_key(r)
            &&& after[s][r] == RegisterModel::Fields(merge(before, fields))
            &&& (fields.path is None ==> merge(before, fields).path == before.path)
            &&& (fields.line is None ==> merge(before, fields).line == before.line)
            &&& (fields.column is None ==> merge(before, fields).column == before.column)
            &&& (fields.extra is None ==> merge(before, fields).extra == before.extra)
            &&& forall|r2: Seq<char>|
                r2 != r ==> (#[trigger] after[s].contains_key(r2) <==> section_or_empty(m, s).contains_key(r2))
                    && (section_or_empty(m, s).contains_key(r2) ==> after[s][r2] == section_or_empty(m, s)[r2])
            &&& forall|s2: Seq<char>| s2 != s ==> (#[trigger] after.contains_key(s2) <==> m.contains_key(s2))
                && (m.contains_key(s2) ==> after[s2] == m[s2])
        }),
{
}

/// A replace overwrites whatever an earlier replace left: the register holds
/// exactly the last list, and stays present when that list is empty.
pub proof fn lemma_replace_overwrites(
    m: StoreModel,
    s: Seq<char>,
    r: Seq<char>,
    first: Seq<Seq<char>>,
    second: Seq<Seq<char>>,
)
    ensures
        replaced(replaced(m, s, r, first), s, r, second) == replaced(m, s, r, second),
        replaced(m, s, r, second).contains_key(s),
        replaced(m, s, r, second)[s].contains_key(r),
        replaced(m, s, r, second)[s][r] == RegisterModel::Values(second),
{
    let once = replaced(m, s, r, first);
    assert(section_or_empty(once, s).insert(r, RegisterModel::Values(second)) =~= section_or_empty(
        m,
        s,
    ).insert(r, RegisterModel::Values(second)));
    assert(replaced(once, s, r, second) =~= replaced(m, s, r, second));
}

/// A lookup of an entry whose four fields are all set, asking for every field,
/// hands back path, line, column and extra, in that order.
pub proof fn lemma_rendered_order(e: EntryModel, sel: Selectors)
    requires
        e.path is Some,
        e.line is Some,
        e.column is Some,
        e.extra is Some,
        sel.path && sel.line && sel.column && sel.extra,
    ensures
        rendered(RegisterModel::Fields(e), sel) == seq![
            ValueModel::Text(e.path.unwrap()),
            ValueModel::Number(e.line.unwrap()),
            ValueModel::Number(e.column.unwrap()),
            ValueModel::Text(e.extra.unwrap()),
        ],
{
    assert(rendered(RegisterModel::Fields(e), sel) =~= seq![
        ValueModel::Text(e.path.unwrap()),
        ValueModel::Number(e.line.unwrap()),
        ValueModel::Number(e.column.unwrap()),
        ValueModel::Text(e.extra.unwrap()),
    ]);
}

/// Asking for no field at all hands back what asking for every field does.
pub proof fn lemma_no_selector_means_all(r: RegisterModel, sel: Selectors)
    requires
        sel.is_none(),
    ensures
        rendered(r, sel) == rendered(r, Selectors { path: true, line: true, column: true, extra: true }),
{
}

} // verus!

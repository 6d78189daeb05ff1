//! Building the name table from the definitions, and substituting it into
//! the raw document text.
//!
//! Definitions are resolved in declaration order, each against the table of
//! those declared before it: a reference to a later definition stays
//! unresolved. A key declared twice keeps its last value.

use vstd::prelude::*;
use crate::config::{DefineItem, items_view};
use crate::subst::{
    NameTable, key_index, keys_unique, lemma_self_reference, lookup, reference_to, resolve,
    resolve_from, substitute_variables, table_insert,
};

verus! {

/// The table that the definitions `items` build, in declaration order.
pub open spec fn table_of(items: Seq<(Seq<char>, Seq<char>)>) -> Seq<(Seq<char>, Seq<char>)>
    decreases items.len(),
{
    if items.len() == 0 {
        Seq::empty()
    } else {
        let prev = table_of(items.drop_last());
        table_insert(prev, items.last().0, resolve(items.last().1, prev))
    }
}

/// Builds the name table of `items`.
pub fn build_name_table(items: &Vec<DefineItem>) -> (r: NameTable)
    ensures
        r.wf(),
        r@ == table_of(items_view(items@)),
{
    let ghost all = items_view(items@);
    let mut table = NameTable::new();
    let mut i: usize = 0;
    assert(all.subrange(0, 0) =~= Seq::<(Seq<char>, Seq<char>)>::empty());
    while i < items.len()
        invariant
            i <= items@.len(),
            all == items_view(items@),
            table.wf(),
            table@ == table_of(all.subrange(0, i as int)),
        decreases items@.len() - i,
    {
        let value = substitute_variables(items[i].value.as_str(), &table);
        table.insert(items[i].key.clone(), value);
        assert(all.subrange(0, i + 1).drop_last() =~= all.subrange(0, i as int));
        i = i + 1;
    }
    assert(all.subrange(0, items@.len() as int) =~= all);
    table
}

/// `text` with the references to `items` substituted, anywhere in it.
pub fn substitute_document(text: &str, items: &Vec<DefineItem>) -> (r: String)
    ensures
        r@ == resolve(text@, table_of(items_view(items@))),
{
    let table = build_name_table(items);
    substitute_variables(text, &table)
}

/// A definition `key = "${key}"` keeps its own reference as its value, and a
/// reference to it in the document is left verbatim.
pub proof fn lemma_self_definition(key: Seq<char>, t: Seq<char>)
    requires
        reference_to(t, key),
    ensures
        table_of(seq![(key, t)]) == seq![(key, t)],
        resolve(t, table_of(seq![(key, t)])) == t,
{
    let items = seq![(key, t)];
    let empty = Seq::<(Seq<char>, Seq<char>)>::empty();
    assert(items.drop_last() =~= empty);
    assert(key_index(empty, key) == -1);
    assert(resolve_from(t, 0, empty) == (t, true));
    assert(table_of(items.drop_last()) == empty);
    assert(table_insert(empty, key, t) =~= items);
    assert(table_of(items) == table_insert(empty, key, resolve(t, empty)));
    assert(key_index(items, key) == 0) by {
        assert(items.last().0 == key);
    }
    assert(keys_unique(items));
    assert(lookup(items, key) == Some(t));
    lemma_self_reference(items, key, t);
}

} // verus!

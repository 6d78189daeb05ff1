//! Substitution of `${name}` references against a table of definitions.
//!
//! A reference is `$`, `{`, the longest run of word characters after them
//! (at least one), and a closing `}`. References are resolved left to right;
//! the value of a definition is itself resolved first, with that definition
//! withdrawn from the table, so that a definition which refers to itself,
//! directly or through others, sees its own reference as unresolved. The
//! first unresolved reference met, at any depth, stops all substitution: the
//! text is returned with that reference and everything after it left as it is.
//!
//! After a reference is replaced, scanning resumes after the inserted value,
//! not at the position where the reference stood. The inserted value is
//! already fully resolved, so the two differ only where the value and the
//! text after it together spell a new reference (`A = "${"` in `${A}B}`
//! leaves `${B}`). Rescanning there would not terminate in general: with
//! `A = "${"`, the text `${A}A}` would turn back into itself forever.

use vstd::prelude::*;
use crate::config::{DefineItem, items_view};
use crate::words::{word_char, is_word_char};

verus! {

/// The end of the run of word characters that starts at `k`.
pub open spec fn word_run_end(t: Seq<char>, k: int) -> int
    decreases t.len() - k,
{
    if 0 <= k < t.len() && word_char(t[k]) {
        word_run_end(t, k + 1)
    } else {
        k
    }
}

/// A reference `${name}` starts at `i`.
pub open spec fn ref_starts_at(t: Seq<char>, i: int) -> bool {
    &&& 0 <= i
    &&& i + 1 < t.len()
    &&& t[i] == '$'
    &&& t[i + 1] == '{'
    &&& i + 2 < word_run_end(t, i + 2) < t.len()
    &&& t[word_run_end(t, i + 2)] == '}'
}

/// `t` holds at least one reference.
pub open spec fn has_ref(t: Seq<char>) -> bool {
    exists|i: int| ref_starts_at(t, i)
}

/// `t` is exactly the reference `${name}`.
pub open spec fn reference_to(t: Seq<char>, name: Seq<char>) -> bool {
    &&& ref_starts_at(t, 0)
    &&& word_run_end(t, 2) == t.len() - 1
    &&& t.subrange(2, t.len() - 1) == name
}

/// Index of the last entry of `table` keyed `name`, or -1.
pub open spec fn key_index(table: Seq<(Seq<char>, Seq<char>)>, name: Seq<char>) -> int
    decreases table.len(),
{
    if table.len() == 0 {
        -1
    } else if table.last().0 == name {
        table.len() - 1
    } else {
        key_index(table.drop_last(), name)
    }
}

/// Resolution of `t` from position `pos` on: the resulting text, and whether
/// an unresolved reference stopped it.
pub open spec fn resolve_from(t: Seq<char>, pos: nat, table: Seq<(Seq<char>, Seq<char>)>) -> (
    Seq<char>,
    bool,
)
    decreases table.len(), t.len() - pos,
{
    if pos >= t.len() {
        (t, false)
    } else if !ref_starts_at(t, pos as int) {
        resolve_from(t, pos + 1, table)
    } else {
        let e = word_run_end(t, pos + 2int);
        let k = key_index(table, t.subrange(pos + 2int, e));
        if !(0 <= k < table.len()) {
            (t, true)
        } else {
            let inner = resolve_from(table[k].1, 0, table.remove(k));
            let t2 = t.subrange(0, pos as int) + inner.0 + t.subrange(e + 1, t.len() as int);
            if inner.1 {
                (t2, true)
            } else {
                resolve_from(t2, pos + inner.0.len(), table)
            }
        }
    }
}

/// `t` with its references substituted from `table`.
pub open spec fn resolve(t: Seq<char>, table: Seq<(Seq<char>, Seq<char>)>) -> Seq<char> {
    resolve_from(t, 0, table).0
}

/// Where a reference starts at `i`, the index of its closing brace.
fn ref_end_at(t: &str, n: usize, i: usize) -> (r: Option<usize>)
    requires
        n == t@.len(),
        i < n,
    ensures
        r == (if ref_starts_at(t@, i as int) {
            Some(word_run_end(t@, i + 2) as usize)
        } else {
            None::<usize>
        }),
{
    if n - i <= 2 || t.get_char(i) != '$' || t.get_char(i + 1) != '{' {
        return None;
    }
    let mut k: usize = i + 2;
    while k < n && is_word_char(t.get_char(k))
        invariant
            n == t@.len(),
            i + 2 <= k <= n,
            word_run_end(t@, i + 2) == word_run_end(t@, k as int),
        decreases n - k,
    {
        k = k + 1;
    }
    if k > i + 2 && k < n && t.get_char(k) == '}' {
        Some(k)
    } else {
        None
    }
}

/// Index of the last item keyed `name`.
fn find_key(items: &Vec<DefineItem>, name: &String) -> (r: Option<usize>)
    ensures
        match r {
            Some(k) => k as int == key_index(items_view(items@), name@) && k < items@.len(),
            None => key_index(items_view(items@), name@) == -1,
        },
{
    let ghost table = items_view(items@);
    let mut i: usize = items.len();
    assert(table.subrange(0, i as int) =~= table);
    while i > 0
        invariant
            i <= items@.len(),
            table == items_view(items@),
            key_index(table, name@) == key_index(table.subrange(0, i as int), name@),
        decreases i,
    {
        assert(table.subrange(0, i as int).drop_last() =~= table.subrange(0, i - 1));
        if items[i - 1].key == *name {
            return Some(i - 1);
        }
        i = i - 1;
    }
    None
}

/// A copy of `items` without the item at `k`.
fn without(items: &Vec<DefineItem>, k: usize) -> (r: Vec<DefineItem>)
    requires
        k < items@.len(),
    ensures
        items_view(r@) == items_view(items@).remove(k as int),
        r@.len() == items@.len() - 1,
{
    let mut r: Vec<DefineItem> = Vec::new();
    let mut i: usize = 0;
    while i < items.len()
        invariant
            i <= items@.len(),
            items_view(r@) =~= items_view(items@.subrange(0, i as int)),
        decreases items@.len() - i,
    {
        let d = DefineItem { key: items[i].key.clone(), value: items[i].value.clone() };
        let ghost prev = r@;
        r.push(d);
        assert(items_view(r@) =~= items_view(prev).push((d.key@, d.value@)));
        assert(items@.subrange(0, i + 1) =~= items@.subrange(0, i as int).push(items@[i as int]));
        i = i + 1;
    }
    assert(items@.subrange(0, items@.len() as int) =~= items@);
    let ghost before = r@;
    r.remove(k);
    assert(items_view(r@) =~= items_view(before).remove(k as int));
    r
}

/// Resolves `text` against `items`, and tells whether an unresolved reference
/// stopped the substitution.
fn resolve_items(text: &str, items: &Vec<DefineItem>) -> (r: (String, bool))
    ensures
        (r.0@, r.1) == resolve_from(text@, 0, items_view(items@)),
    decreases items@.len(),
{
    let ghost table = items_view(items@);
    let mut t = String::from_str(text);
    let mut n: usize = t.as_str().unicode_len();
    let mut pos: usize = 0;
    loop
        invariant
            n == t@.len(),
            pos <= n,
            table == items_view(items@),
            resolve_from(t@, pos as nat, table) == resolve_from(text@, 0, table),
        decreases n - pos,
    {
        if pos >= n {
            return (t, false);
        }
        match ref_end_at(t.as_str(), n, pos) {
            None => {
                pos = pos + 1;
            },
            Some(e) => {
                let name = String::from_str(t.as_str().substring_char(pos + 2, e));
                match find_key(items, &name) {
                    None => {
                        return (t, true);
                    },
                    Some(k) => {
                        let rest = without(items, k);
                        let (v, stopped) = resolve_items(items[k].value.as_str(), &rest);
                        let mut t2 = String::from_str(t.as_str().substring_char(0, pos));
                        t2.append(v.as_str());
                        t2.append(t.as_str().substring_char(e + 1, n));
                        if stopped {
                            return (t2, true);
                        }
                        let vn = v.as_str().unicode_len();
                        n = t2.as_str().unicode_len();
                        pos = pos + vn;
                        t = t2;
                    },
                }
            },
        }
    }
}


/// Facts about `key_index`: it is an index of an entry keyed `name`, and no
/// later entry has that key.
pub proof fn lemma_key_index(table: Seq<(Seq<char>, Seq<char>)>, name: Seq<char>)
    ensures
        -1 <= key_index(table, name) < table.len(),
        key_index(table, name) >= 0 ==> table[key_index(table, name)].0 == name,
        forall|j: int| key_index(table, name) < j < table.len() ==> table[j].0 != name,
    decreases table.len(),
{
    if table.len() > 0 && table.last().0 != name {
        lemma_key_index(table.drop_last(), name);
        assert forall|j: int| key_index(table, name) < j < table.len() implies table[j].0
            != name by {
            if j < table.len() - 1 {
                assert(table.drop_last()[j] == table[j]);
            }
        }
    }
}

/// No two entries of `table` share a key.
pub open spec fn keys_unique(table: Seq<(Seq<char>, Seq<char>)>) -> bool {
    forall|i: int, j: int| 0 <= i < j < table.len() ==> table[i].0 != table[j].0
}

/// The value that `table` gives `name`, if any.
pub open spec fn lookup(table: Seq<(Seq<char>, Seq<char>)>, name: Seq<char>) -> Option<Seq<char>> {
    let k = key_index(table, name);
    if 0 <= k < table.len() {
        Some(table[k].1)
    } else {
        None
    }
}

/// `table` where `key` now has `value`: an existing entry is overwritten in
/// place, a new key is appended.
pub open spec fn table_insert(
    table: Seq<(Seq<char>, Seq<char>)>,
    key: Seq<char>,
    value: Seq<char>,
) -> Seq<(Seq<char>, Seq<char>)> {
    let k = key_index(table, key);
    if 0 <= k < table.len() {
        table.update(k, (key, value))
    } else {
        table.push((key, value))
    }
}

/// A table of fully named values, each key present once.
pub struct NameTable {
    entries: Vec<DefineItem>,
}

impl View for NameTable {
    type V = Seq<(Seq<char>, Seq<char>)>;

    closed spec fn view(&self) -> Seq<(Seq<char>, Seq<char>)> {
        items_view(self.entries@)
    }
}

impl NameTable {
    pub open spec fn wf(&self) -> bool {
        keys_unique(self@)
    }

    /// An empty table.
    pub fn new() -> (r: NameTable)
        ensures
            r.wf(),
            r@ == Seq::<(Seq<char>, Seq<char>)>::empty(),
    {
        let r = NameTable { entries: Vec::new() };
        assert(r@ =~= Seq::<(Seq<char>, Seq<char>)>::empty());
        r
    }

    /// Gives `key` the value `value`, replacing any earlier value.
    pub fn insert(&mut self, key: String, value: String)
        requires
            old(self).wf(),
        ensures
            final(self).wf(),
            final(self)@ == table_insert(old(self)@, key@, value@),
    {
        proof {
            lemma_key_index(self@, key@);
        }
        let ghost before = self@;
        match find_key(&self.entries, &key) {
            Some(k) => {
                self.entries.set(k, DefineItem { key, value });
                assert(self@ =~= before.update(k as int, (key@, value@)));
            },
            None => {
                self.entries.push(DefineItem { key, value });
                assert(self@ =~= before.push((key@, value@)));
            },
        }
    }

    /// The value of `key`, if the table has one.
    pub fn get(&self, key: &String) -> (r: Option<String>)
        ensures
            r matches Some(v) ==> lookup(self@, key@) == Some(v@),
            r is None ==> lookup(self@, key@) is None,
    {
        match find_key(&self.entries, key) {
            Some(k) => Some(self.entries[k].value.clone()),
            None => None,
        }
    }
}

/// `value` with its `${name}` references substituted from `table`.
pub fn substitute_variables(value: &str, table: &NameTable) -> (r: String)
    ensures
        r@ == resolve(value@, table@),
{
    let (r, _stopped) = resolve_items(value, &table.entries);
    r
}

/// Text without references is left as it is.
pub proof fn lemma_resolve_plain(t: Seq<char>, table: Seq<(Seq<char>, Seq<char>)>)
    requires
        !has_ref(t),
    ensures
        resolve(t, table) == t,
        resolve_from(t, 0, table) == (t, false),
{
    lemma_resolve_plain_from(t, 0, table);
}

proof fn lemma_resolve_plain_from(t: Seq<char>, pos: nat, table: Seq<(Seq<char>, Seq<char>)>)
    requires
        !has_ref(t),
    ensures
        resolve_from(t, pos, table) == (t, false),
    decreases t.len() - pos,
{
    if pos < t.len() {
        assert(!ref_starts_at(t, pos as int));
        lemma_resolve_plain_from(t, pos + 1, table);
    }
}

/// A definition whose value is a reference to itself resolves to that same
/// reference, left verbatim, and the substitution reports it unresolved.
pub proof fn lemma_self_reference(
    table: Seq<(Seq<char>, Seq<char>)>,
    name: Seq<char>,
    t: Seq<char>,
)
    requires
        keys_unique(table),
        reference_to(t, name),
        lookup(table, name) == Some(t),
    ensures
        resolve_from(t, 0, table) == (t, true),
        resolve(t, table) == t,
{
    let k = key_index(table, name);
    lemma_key_index(table, name);
    let rest = table.remove(k);
    lemma_key_index(rest, name);
    if key_index(rest, name) >= 0 {
        let j = key_index(rest, name);
        if j < k {
            assert(table[j].0 == name);
        } else {
            assert(table[j + 1].0 == name);
        }
    }
    assert(key_index(rest, name) == -1);
    assert(resolve_from(t, 0, rest) == (t, true));
    assert(t.subrange(0, 0) + t + t.subrange(t.len() as int, t.len() as int) =~= t);
}

} // verus!

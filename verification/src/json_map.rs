//! Documents as maps: the keys of every object in order, each once.
use vstd::prelude::*;

use crate::json::{
    bytes_of, entries_view, items_view, lemma_entries_view, text_of, Json, JsonEntry, JsonView,
};
use crate::json_law::{law_text_determines_document, valid, valid_entries, valid_items};
use crate::text::{lemma_text_before, lemma_utf8_injective, same, str_before, text_before};

verus! {

/// The keys stand in order, each once.
pub open spec fn keys_in_order(entries: Seq<(Seq<char>, JsonView)>) -> bool {
    forall|i: int, j: int|
        0 <= i < j < entries.len() ==> text_before(
            (#[trigger] entries[i]).0,
            (#[trigger] entries[j]).0,
        )
}

/// The document is a map at every depth.
pub open spec fn is_map(value: JsonView) -> bool
    decreases value,
{
    match value {
        JsonView::Array(items) => items_are_maps(items),
        JsonView::Object(entries) => keys_in_order(entries) && entries_are_maps(entries),
        _ => true,
    }
}

pub open spec fn items_are_maps(items: Seq<JsonView>) -> bool
    decreases items,
{
    items.len() == 0 || (items_are_maps(items.drop_last()) && is_map(items.last()))
}

pub open spec fn entries_are_maps(entries: Seq<(Seq<char>, JsonView)>) -> bool
    decreases entries,
{
    entries.len() == 0 || (entries_are_maps(entries.drop_last()) && is_map(entries.last().1))
}

/// Entries in order with one more, in the place of one with the same key.
pub open spec fn put(
    entries: Seq<(Seq<char>, JsonView)>,
    key: Seq<char>,
    value: JsonView,
) -> Seq<(Seq<char>, JsonView)>
    decreases entries.len(),
{
    if entries.len() == 0 {
        seq![(key, value)]
    } else if entries[0].0 == key {
        seq![(key, value)] + entries.skip(1)
    } else if text_before(entries[0].0, key) {
        seq![entries[0]] + put(entries.skip(1), key, value)
    } else {
        seq![(key, value)] + entries
    }
}

/// The map that a document stands for: of entries with one key the last one counts.
pub open spec fn mapped(value: JsonView) -> JsonView
    decreases value,
{
    match value {
        JsonView::Array(items) => JsonView::Array(mapped_items(items)),
        JsonView::Object(entries) => JsonView::Object(mapped_entries(entries)),
        other => other,
    }
}

pub open spec fn mapped_items(items: Seq<JsonView>) -> Seq<JsonView>
    decreases items,
{
    if items.len() == 0 {
        Seq::empty()
    } else {
        mapped_items(items.drop_last()).push(mapped(items.last()))
    }
}

pub open spec fn mapped_entries(entries: Seq<(Seq<char>, JsonView)>) -> Seq<
    (Seq<char>, JsonView),
>
    decreases entries,
{
    if entries.len() == 0 {
        Seq::empty()
    } else {
        put(
            mapped_entries(entries.drop_last()),
            entries.last().0,
            mapped(entries.last().1),
        )
    }
}

/// The bytes of a document as a map.
pub open spec fn map_bytes(value: JsonView) -> Seq<u8> {
    bytes_of(mapped(value))
}

/// The text of a document as a map.
pub open spec fn map_text(value: JsonView) -> Seq<char> {
    text_of(mapped(value))
}

// ---------------------------------------------------------------------------
// Putting an entry in
// ---------------------------------------------------------------------------
/// What `put` does, by the place of the key.
pub(crate) proof fn lemma_put_at(
    entries: Seq<(Seq<char>, JsonView)>,
    key: Seq<char>,
    value: JsonView,
    at: int,
)
    requires
        0 <= at <= entries.len(),
        forall|i: int| 0 <= i < at ==> text_before((#[trigger] entries[i]).0, key),
        at < entries.len() ==> !text_before(entries[at].0, key),
    ensures
        put(entries, key, value) == if at < entries.len() && entries[at].0 == key {
            entries.update(at, (key, value))
        } else {
            entries.insert(at, (key, value))
        },
    decreases entries.len(),
{
    let result = put(entries, key, value);
    if entries.len() == 0 {
        assert(result =~= entries.insert(at, (key, value)));
    } else if at == 0 {
        if entries[0].0 == key {
            assert(result =~= entries.update(0, (key, value)));
        } else {
            assert(result =~= entries.insert(0, (key, value)));
        }
    } else {
        lemma_text_before(entries[0].0, key, key);
        let rest = entries.skip(1);
        assert forall|i: int| 0 <= i < at - 1 implies text_before((#[trigger] rest[i]).0, key) by {
            assert(rest[i] == entries[i + 1]);
        }
        if at < entries.len() {
            assert(rest[at - 1] == entries[at]);
        }
        lemma_put_at(rest, key, value, at - 1);
        if at < entries.len() && entries[at].0 == key {
            assert(result =~= entries.update(at, (key, value)));
        } else {
            assert(result =~= entries.insert(at, (key, value)));
        }
    }
}

/// The place of a key among entries in order.
spec fn place(entries: Seq<(Seq<char>, JsonView)>, key: Seq<char>, n: int) -> int
    decreases n,
{
    if n <= 0 {
        0
    } else if text_before(entries[n - 1].0, key) {
        n
    } else {
        place(entries, key, n - 1)
    }
}

proof fn lemma_place(entries: Seq<(Seq<char>, JsonView)>, key: Seq<char>, n: int)
    requires
        keys_in_order(entries),
        0 <= n <= entries.len(),
    ensures
        0 <= place(entries, key, n) <= n,
        forall|i: int|
            0 <= i < place(entries, key, n) ==> text_before((#[trigger] entries[i]).0, key),
        forall|i: int|
            place(entries, key, n) <= i < n ==> !text_before((#[trigger] entries[i]).0, key),
    decreases n,
{
    if n > 0 {
        if text_before(entries[n - 1].0, key) {
            assert forall|i: int| 0 <= i < n implies text_before((#[trigger] entries[i]).0, key) by {
                if i < n - 1 {
                    lemma_text_before(entries[i].0, entries[n - 1].0, key);
                }
            }
        } else {
            lemma_place(entries, key, n - 1);
        }
    }
}

/// Putting an entry in keeps the order.
pub(crate) proof fn lemma_put_keeps_order(
    entries: Seq<(Seq<char>, JsonView)>,
    key: Seq<char>,
    value: JsonView,
)
    requires
        keys_in_order(entries),
    ensures
        keys_in_order(put(entries, key, value)),
{
    let n = entries.len() as int;
    lemma_place(entries, key, n);
    let at = place(entries, key, n);
    lemma_put_at(entries, key, value, at);
    let result = put(entries, key, value);
    if at < n && entries[at].0 == key {
        assert forall|i: int, j: int| 0 <= i < j < result.len() implies text_before(
            (#[trigger] result[i]).0,
            (#[trigger] result[j]).0,
        ) by {
            assert(result[i].0 == entries[i].0);
            assert(result[j].0 == entries[j].0);
        }
    } else {
        assert forall|i: int, j: int| 0 <= i < j < result.len() implies text_before(
            (#[trigger] result[i]).0,
            (#[trigger] result[j]).0,
        ) by {
            let a = if i < at {
                i
            } else {
                i - 1
            };
            let b = if j < at {
                j
            } else {
                j - 1
            };
            if i == at {
                lemma_text_before(key, entries[at].0, entries[b].0);
                assert(!text_before(entries[at].0, key));
                lemma_text_before(entries[at].0, key, key);
                if b > at {
                    assert(text_before(entries[at].0, entries[b].0));
                }
            } else if j == at {
                assert(text_before(entries[a].0, key));
            } else {
                assert(text_before(entries[a].0, entries[b].0));
            }
        }
    }
}

/// Values that are maps stay maps.
proof fn lemma_put_keeps_maps(
    entries: Seq<(Seq<char>, JsonView)>,
    key: Seq<char>,
    value: JsonView,
)
    requires
        keys_in_order(entries),
        entries_are_maps(entries),
        is_map(value),
    ensures
        entries_are_maps(put(entries, key, value)),
{
    let n = entries.len() as int;
    lemma_place(entries, key, n);
    let at = place(entries, key, n);
    lemma_put_at(entries, key, value, at);
    let result = put(entries, key, value);
    lemma_all_maps(entries);
    assert forall|i: int| 0 <= i < result.len() implies is_map((#[trigger] result[i]).1) by {
        if at < n && entries[at].0 == key {
            if i != at {
                assert(result[i] == entries[i]);
            }
        } else if i < at {
            assert(result[i] == entries[i]);
        } else if i > at {
            assert(result[i] == entries[i - 1]);
        }
    }
    lemma_maps_from_all(result);
}

proof fn lemma_all_maps(entries: Seq<(Seq<char>, JsonView)>)
    requires
        entries_are_maps(entries),
    ensures
        forall|i: int| 0 <= i < entries.len() ==> is_map((#[trigger] entries[i]).1),
    decreases entries.len(),
{
    if entries.len() > 0 {
        lemma_all_maps(entries.drop_last());
        assert forall|i: int| 0 <= i < entries.len() implies is_map((#[trigger] entries[i]).1) by {
            if i < entries.len() - 1 {
                assert(entries.drop_last()[i] == entries[i]);
            }
        }
    }
}

pub(crate) proof fn lemma_maps_from_all(entries: Seq<(Seq<char>, JsonView)>)
    requires
        forall|i: int| 0 <= i < entries.len() ==> is_map((#[trigger] entries[i]).1),
    ensures
        entries_are_maps(entries),
    decreases entries.len(),
{
    if entries.len() > 0 {
        let init = entries.drop_last();
        assert forall|i: int| 0 <= i < init.len() implies is_map((#[trigger] init[i]).1) by {
            assert(init[i] == entries[i]);
        }
        lemma_maps_from_all(init);
    }
}

pub(crate) proof fn lemma_item_maps_from_all(items: Seq<JsonView>)
    requires
        forall|i: int| 0 <= i < items.len() ==> is_map(#[trigger] items[i]),
    ensures
        items_are_maps(items),
    decreases items.len(),
{
    if items.len() > 0 {
        let init = items.drop_last();
        assert forall|i: int| 0 <= i < init.len() implies is_map(#[trigger] init[i]) by {
            assert(init[i] == items[i]);
        }
        lemma_item_maps_from_all(init);
    }
}

/// The numbers of a document stay numbers.
pub proof fn lemma_mapped_valid(value: JsonView)
    requires
        valid(value),
    ensures
        valid(mapped(value)),
    decreases value,
{
    match value {
        JsonView::Array(items) => lemma_mapped_items_valid(items),
        JsonView::Object(entries) => lemma_mapped_entries_valid(entries),
        _ => {},
    }
}

proof fn lemma_mapped_items_valid(items: Seq<JsonView>)
    requires
        valid_items(items),
    ensures
        valid_items(mapped_items(items)),
    decreases items,
{
    if items.len() > 0 {
        lemma_mapped_items_valid(items.drop_last());
        lemma_mapped_valid(items.last());
        assert(mapped_items(items).drop_last() =~= mapped_items(items.drop_last()));
    }
}

proof fn lemma_mapped_entries_valid(entries: Seq<(Seq<char>, JsonView)>)
    requires
        valid_entries(entries),
    ensures
        valid_entries(mapped_entries(entries)),
    decreases entries,
{
    if entries.len() > 0 {
        lemma_mapped_entries_valid(entries.drop_last());
        lemma_mapped_valid(entries.last().1);
        lemma_put_valid(
            mapped_entries(entries.drop_last()),
            entries.last().0,
            mapped(entries.last().1),
        );
    }
}

proof fn lemma_put_valid(entries: Seq<(Seq<char>, JsonView)>, key: Seq<char>, value: JsonView)
    requires
        valid_entries(entries),
        valid(value),
    ensures
        valid_entries(put(entries, key, value)),
    decreases entries.len(),
{
    lemma_all_valid(entries);
    let result = put(entries, key, value);
    if entries.len() > 0 && entries[0].0 != key && text_before(entries[0].0, key) {
        let rest = entries.skip(1);
        assert forall|i: int| 0 <= i < rest.len() implies valid((#[trigger] rest[i]).1) by {
            assert(rest[i] == entries[i + 1]);
        }
        lemma_valid_from_all(rest);
        lemma_put_valid(rest, key, value);
        let put_rest = put(rest, key, value);
        lemma_all_valid(put_rest);
        assert forall|i: int| 0 <= i < result.len() implies valid((#[trigger] result[i]).1) by {
            if i > 0 {
                assert(result[i] == put_rest[i - 1]);
            }
        }
    } else {
        assert forall|i: int| 0 <= i < result.len() implies valid((#[trigger] result[i]).1) by {
            if i > 0 {
                if entries[0].0 == key {
                    assert(result[i] == entries[i]);
                } else {
                    assert(result[i] == entries[i - 1]);
                }
            }
        }
    }
    lemma_valid_from_all(result);
}

proof fn lemma_all_valid(entries: Seq<(Seq<char>, JsonView)>)
    requires
        valid_entries(entries),
    ensures
        forall|i: int| 0 <= i < entries.len() ==> valid((#[trigger] entries[i]).1),
    decreases entries.len(),
{
    if entries.len() > 0 {
        lemma_all_valid(entries.drop_last());
        assert forall|i: int| 0 <= i < entries.len() implies valid((#[trigger] entries[i]).1) by {
            if i < entries.len() - 1 {
                assert(entries.drop_last()[i] == entries[i]);
            }
        }
    }
}

proof fn lemma_valid_from_all(entries: Seq<(Seq<char>, JsonView)>)
    requires
        forall|i: int| 0 <= i < entries.len() ==> valid((#[trigger] entries[i]).1),
    ensures
        valid_entries(entries),
    decreases entries.len(),
{
    if entries.len() > 0 {
        let init = entries.drop_last();
        assert forall|i: int| 0 <= i < init.len() implies valid((#[trigger] init[i]).1) by {
            assert(init[i] == entries[i]);
        }
        lemma_valid_from_all(init);
    }
}

// ---------------------------------------------------------------------------
// Laws
// ---------------------------------------------------------------------------
/// The map that a document stands for is one.
pub proof fn law_mapped_is_map(value: JsonView)
    ensures
        is_map(mapped(value)),
    decreases value,
{
    match value {
        JsonView::Array(items) => lemma_mapped_items(items),
        JsonView::Object(entries) => lemma_mapped_entries(entries),
        _ => {},
    }
}

proof fn lemma_mapped_items(items: Seq<JsonView>)
    ensures
        items_are_maps(mapped_items(items)),
    decreases items,
{
    if items.len() > 0 {
        lemma_mapped_items(items.drop_last());
        law_mapped_is_map(items.last());
        assert(mapped_items(items).drop_last() =~= mapped_items(items.drop_last()));
    }
}

proof fn lemma_mapped_entries(entries: Seq<(Seq<char>, JsonView)>)
    ensures
        keys_in_order(mapped_entries(entries)),
        entries_are_maps(mapped_entries(entries)),
    decreases entries,
{
    if entries.len() > 0 {
        lemma_mapped_entries(entries.drop_last());
        law_mapped_is_map(entries.last().1);
        let before = mapped_entries(entries.drop_last());
        lemma_put_keeps_order(before, entries.last().0, mapped(entries.last().1));
        lemma_put_keeps_maps(before, entries.last().0, mapped(entries.last().1));
    }
}

/// A map stands for itself.
pub proof fn law_map_is_its_own(value: JsonView)
    requires
        is_map(value),
    ensures
        mapped(value) == value,
    decreases value,
{
    match value {
        JsonView::Array(items) => lemma_own_items(items),
        JsonView::Object(entries) => lemma_own_entries(entries),
        _ => {},
    }
}

proof fn lemma_own_items(items: Seq<JsonView>)
    requires
        items_are_maps(items),
    ensures
        mapped_items(items) == items,
    decreases items,
{
    if items.len() > 0 {
        lemma_own_items(items.drop_last());
        law_map_is_its_own(items.last());
        assert(items.drop_last().push(items.last()) =~= items);
    } else {
        assert(mapped_items(items) =~= items);
    }
}

proof fn lemma_own_entries(entries: Seq<(Seq<char>, JsonView)>)
    requires
        keys_in_order(entries),
        entries_are_maps(entries),
    ensures
        mapped_entries(entries) == entries,
    decreases entries,
{
    if entries.len() > 0 {
        let init = entries.drop_last();
        assert forall|i: int, j: int| 0 <= i < j < init.len() implies text_before(
            (#[trigger] init[i]).0,
            (#[trigger] init[j]).0,
        ) by {
            assert(init[i] == entries[i]);
            assert(init[j] == entries[j]);
        }
        lemma_own_entries(init);
        law_map_is_its_own(entries.last().1);
        let last = entries.last();
        assert forall|i: int| 0 <= i < init.len() implies text_before(
            (#[trigger] init[i]).0,
            last.0,
        ) by {
            assert(init[i] == entries[i]);
            assert(text_before(entries[i].0, entries[entries.len() - 1].0));
        }
        lemma_put_at(init, last.0, last.1, init.len() as int);
        assert(init.insert(init.len() as int, last) =~= entries);
    } else {
        assert(mapped_entries(entries) =~= entries);
    }
}

/// Documents whose bytes are the same stand for one map.
pub proof fn law_bytes_determine_map(a: JsonView, b: JsonView)
    requires
        valid(a),
        valid(b),
        map_bytes(a) == map_bytes(b),
    ensures
        mapped(a) == mapped(b),
{
    lemma_mapped_valid(a);
    lemma_mapped_valid(b);
    lemma_utf8_injective(text_of(mapped(a)), text_of(mapped(b)));
    law_text_determines_document(mapped(a), mapped(b));
}

// ---------------------------------------------------------------------------
// Making a map
// ---------------------------------------------------------------------------
fn put_entry(entries: &mut Vec<JsonEntry>, key: &String, value: Json)
    requires
        keys_in_order(entries_view(old(entries)@)),
    ensures
        entries_view(final(entries)@) == put(entries_view(old(entries)@), key@, value@),
{
    let ghost before = entries_view(entries@);
    proof {
        lemma_entries_view(entries@);
    }
    let mut at: usize = 0;
    while at < entries.len() && str_before(entries[at].key.as_str(), key.as_str())
        invariant
            at <= entries@.len(),
            before == entries_view(entries@),
            before.len() == entries@.len(),
            forall|i: int| 0 <= i < before.len() ==> #[trigger] before[i] == (
                entries@[i].key@,
                entries@[i].value@,
            ),
            forall|i: int| 0 <= i < at ==> text_before((#[trigger] before[i]).0, key@),
        decreases entries@.len() - at,
    {
        at += 1;
    }
    proof {
        lemma_put_at(before, key@, value@, at as int);
        if at < before.len() {
            assert(before[at as int] == (entries@[at as int].key@, entries@[at as int].value@));
        }
    }
    let entry = JsonEntry { key: key.clone(), value };
    let ghost view = (entry.key@, entry.value@);
    let taken = at < entries.len() && same(entries[at].key.as_str(), key.as_str());
    if taken {
        entries[at] = entry;
        proof {
            lemma_entries_view(entries@);
        }
        assert(entries_view(entries@) =~= before.update(at as int, view));
    } else {
        entries.insert(at, entry);
        proof {
            lemma_entries_view(entries@);
        }
        assert(entries_view(entries@) =~= before.insert(at as int, view));
    }
}

impl Json {
    /// The map that the document stands for.
    pub fn to_map(&self) -> (r: Json)
        ensures
            r@ == mapped(self@),
            is_map(r@),
        decreases self,
    {
        proof {
            law_mapped_is_map(self@);
        }
        match self {
            Json::Array(items) => {
                let mut out: Vec<Json> = Vec::new();
                let mut i: usize = 0;
                while i < items.len()
                    invariant
                        i <= items@.len(),
                        items_view(out@) == mapped_items(items_view(items@.take(i as int))),
                        decreases_to!(self => items),
                    decreases items@.len() - i,
                {
                    let ghost before = out@;
                    out.push(items[i].to_map());
                    proof {
                        assert(out@.drop_last() =~= before);
                        assert(items@.take(i + 1).drop_last() =~= items@.take(i as int));
                        let seen = items_view(items@.take(i + 1));
                        assert(seen.drop_last() =~= items_view(items@.take(i as int)));
                    }
                    i += 1;
                }
                assert(items@.take(i as int) =~= items@);
                Json::Array(out)
            },
            Json::Object(entries) => {
                let mut out: Vec<JsonEntry> = Vec::new();
                let mut i: usize = 0;
                while i < entries.len()
                    invariant
                        i <= entries@.len(),
                        entries_view(out@) == mapped_entries(
                            entries_view(entries@.take(i as int)),
                        ),
                        decreases_to!(self => entries),
                    decreases entries@.len() - i,
                {
                    let value = entries[i].value.to_map();
                    proof {
                        lemma_mapped_entries(entries_view(entries@.take(i as int)));
                        assert(entries@.take(i + 1).drop_last() =~= entries@.take(i as int));
                        let seen = entries_view(entries@.take(i + 1));
                        assert(seen.drop_last() =~= entries_view(entries@.take(i as int)));
                    }
                    put_entry(&mut out, &entries[i].key, value);
                    i += 1;
                }
                assert(entries@.take(i as int) =~= entries@);
                Json::Object(out)
            },
            _ => self.clone(),
        }
    }

    /// The bytes of the document as a map.
    pub fn to_map_bytes(&self) -> (r: Vec<u8>)
        ensures
            r@ == map_bytes(self@),
    {
        self.to_map().to_bytes()
    }

    /// The text of the document as a map.
    pub fn to_map_text(&self) -> (r: String)
        ensures
            r@ == map_text(self@),
    {
        self.to_map().to_text()
    }
}

} // verus!

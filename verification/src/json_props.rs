use vstd::prelude::*;
use crate::json::Json;

verus! {

proof fn lemma_deep_items_all(items: Seq<Json>)
    ensures
        Json::deep_items(items).len() == items.len(),
        forall|i: int|
            #![trigger Json::deep_items(items)[i]]
            #![trigger items[i]]
            0 <= i < items.len() ==> Json::deep_items(items)[i] == items[i].deep(),
    decreases items.len(),
{
    if items.len() > 0 {
        let rest = items.drop_last();
        lemma_deep_items_all(rest);
        assert forall|i: int| 0 <= i < items.len() implies #[trigger] Json::deep_items(items)[i]
            == items[i].deep() by {
            if i < items.len() - 1 {
                assert(rest[i] == items[i]);
            }
        }
    }
}

proof fn lemma_deep_entries_all(entries: Seq<(String, Json)>)
    ensures
        Json::deep_entries(entries).len() == entries.len(),
        forall|i: int|
            #![trigger Json::deep_entries(entries)[i]]
            #![trigger entries[i]]
            0 <= i < entries.len() ==> Json::deep_entries(entries)[i] == (
                entries[i].0@,
                entries[i].1.deep(),
            ),
    decreases entries.len(),
{
    if entries.len() > 0 {
        let rest = entries.drop_last();
        lemma_deep_entries_all(rest);
        assert forall|i: int| 0 <= i < entries.len() implies #[trigger] Json::deep_entries(entries)[i]
            == (entries[i].0@, entries[i].1.deep()) by {
            if i < entries.len() - 1 {
                assert(rest[i] == entries[i]);
            }
        }
    }
}

pub broadcast proof fn lemma_deep_items_len(items: Seq<Json>)
    ensures
        #[trigger] Json::deep_items(items).len() == items.len(),
{
    lemma_deep_items_all(items);
}

pub broadcast proof fn lemma_deep_items_index(items: Seq<Json>, i: int)
    requires
        0 <= i < items.len(),
    ensures
        #[trigger] Json::deep_items(items)[i] == items[i].deep(),
{
    lemma_deep_items_all(items);
}

pub broadcast proof fn lemma_deep_entries_len(entries: Seq<(String, Json)>)
    ensures
        #[trigger] Json::deep_entries(entries).len() == entries.len(),
{
    lemma_deep_entries_all(entries);
}

pub broadcast proof fn lemma_deep_entries_index(entries: Seq<(String, Json)>, i: int)
    requires
        0 <= i < entries.len(),
    ensures
        #[trigger] Json::deep_entries(entries)[i] == (entries[i].0@, entries[i].1.deep()),
{
    lemma_deep_entries_all(entries);
}

pub broadcast group group_json_lemmas {
    lemma_deep_items_len,
    lemma_deep_items_index,
    lemma_deep_entries_len,
    lemma_deep_entries_index,
}


} // verus!

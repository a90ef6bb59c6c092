//! Laws of JSON values and of tables.

use vstd::prelude::*;
use crate::json::{Json, JsonEntry, JsonView};
use crate::table::Table;

verus! {

/// What an optional value means.
pub open spec fn seen(j: Option<&Json>) -> Option<JsonView> {
    match j {
        Some(v) => Some(v@),
        None => None,
    }
}

/// Whether an entry is the last of its key in an object.
pub open spec fn last_entry(entries: Seq<JsonEntry>, i: int, key: Seq<char>) -> bool {
    &&& 0 <= i < entries.len()
    &&& entries[i].key@ == key
    &&& forall|j: int| i < j < entries.len() ==> (#[trigger] entries[j]).key@ != key
}

/// What stands under a key of an object is the value of its last entry with that key.
proof fn lemma_entries(entries: Seq<JsonEntry>, key: Seq<char>)
    ensures
        crate::json::entries_view(entries).contains_key(key) <==> exists|i: int|
            0 <= i < entries.len() && (#[trigger] entries[i]).key@ == key,
        forall|i: int| #[trigger]
            last_entry(entries, i, key) ==> crate::json::entries_view(entries)[key]
                == entries[i].value@,
    decreases entries.len(),
{
    if entries.len() > 0 {
        let less = entries.drop_last();
        let last = entries.len() - 1;
        lemma_entries(less, key);
        assert(entries[last] == entries.last());
        if entries.last().key@ != key {
            if crate::json::entries_view(less).contains_key(key) {
                let i = choose|i: int| 0 <= i < less.len() && (#[trigger] less[i]).key@ == key;
                assert(entries[i].key@ == key);
            }
            if exists|i: int| 0 <= i < entries.len() && (#[trigger] entries[i]).key@ == key {
                let i = choose|i: int|
                    0 <= i < entries.len() && (#[trigger] entries[i]).key@ == key;
                assert(less[i] == entries[i]);
            }
            assert forall|i: int| #[trigger] last_entry(entries, i, key) implies
                crate::json::entries_view(entries)[key] == entries[i].value@ by {
                assert(less[i] == entries[i]);
                assert forall|j: int| i < j < less.len() implies (#[trigger] less[j]).key@
                    != key by {
                    assert(less[j] == entries[j]);
                }
                assert(last_entry(less, i, key));
            }
        } else {
            assert forall|i: int| #[trigger] last_entry(entries, i, key) implies
                crate::json::entries_view(entries)[key] == entries[i].value@ by {
                if i < last {
                    assert(entries[last].key@ != key);
                }
            }
        }
    }
}

/// What is got from under a key of an object is the value of its last entry with that key;
/// nothing is got from where there is none, nor from any other value.
pub proof fn values_are_got(j: Json, key: &str, r: Option<&Json>, i: int)
    requires
        call_ensures(Json::get, (&j, key), r),
    ensures
        j matches Json::Object(entries) ==> {
            &&& last_entry(entries@, i, key@) ==> (r matches Some(v) && v@ == entries@[i].value@)
            &&& r is Some <==> exists|n: int|
                0 <= n < entries@.len() && (#[trigger] entries@[n]).key@ == key@
        },
        !(j is Object) ==> r is None,
{
    if let Json::Object(entries) = j {
        lemma_entries(entries@, key@);
    }
}

/// What was set under a key of an object is got from there, and all else stays; a null becomes
/// an object.
pub proof fn set_values_are_got(
    j: &mut Json,
    key: &str,
    value: Json,
    earlier: Json,
    later: Json,
    other: &str,
    before: Option<&Json>,
    after: Option<&Json>,
)
    requires
        call_ensures(Json::set, (j, key, value), ()),
        call_ensures(Json::get, (&earlier, other), before),
        call_ensures(Json::get, (&later, other), after),
        earlier@ == old(j)@,
        earlier@ is Object || earlier@ is Null,
    ensures
        final(j)@ is Object,
        later@ == final(j)@ ==> seen(after) == if other@ == key@ {
            Some(value@)
        } else {
            seen(before)
        },
{
}

/// What is taken out from under a key of an object is what stood there; it stands there no
/// more, and all else stays.
pub proof fn taken_values_are_gone(
    j: &mut Json,
    key: &str,
    r: Option<Json>,
    earlier: Json,
    later: Json,
    other: &str,
    before: Option<&Json>,
    after: Option<&Json>,
)
    requires
        call_ensures(Json::take, (j, key), r),
        call_ensures(Json::get, (&earlier, other), before),
        call_ensures(Json::get, (&later, other), after),
        earlier@ == old(j)@,
    ensures
        other@ == key@ ==> (r is Some <==> before is Some),
        other@ == key@ ==> (r matches Some(v) ==> before.unwrap()@ == v@),
        later@ == final(j)@ ==> seen(after) == if other@ == key@ {
            None
        } else {
            seen(before)
        },
{
}

/// What is got from under two keys is what is got from under the second of what is got from
/// under the first.
pub proof fn values_are_got_in_turn(
    j: Json,
    outer: &str,
    inner: &str,
    r: Option<&Json>,
    first: Option<&Json>,
    second: Option<&Json>,
)
    requires
        call_ensures(Json::get2, (&j, outer, inner), r),
        call_ensures(Json::get, (&j, outer), first),
        first matches Some(v) ==> call_ensures(Json::get, (v, inner), second),
    ensures
        first is None ==> r is None,
        first is Some ==> seen(r) == seen(second),
{
}

/// Only a text is read as a text, and only an array has items: its own, in their order.
pub proof fn values_are_what_they_are(
    j: Json,
    text: Option<&str>,
    items: Option<&Vec<Json>>,
    i: int,
)
    requires
        call_ensures(Json::as_text, (&j,), text),
        call_ensures(Json::as_items, (&j,), items),
    ensures
        text is Some <==> j is Text,
        j matches Json::Text(s) ==> text.unwrap()@ == s@,
        items is Some <==> j is Array,
        j matches Json::Array(all) ==> {
            &&& items.unwrap()@.len() == all@.len()
            &&& 0 <= i < all@.len() ==> items.unwrap()@[i]@ == all@[i]@
        },
{
    if let Json::Array(all) = j {
        let found = items.unwrap();
        let views = crate::json::items_view(found@);
        assert(j@ is Array);
        assert(views.len() == found@.len());
        assert(j@->Array_0.len() == all@.len());
        if 0 <= i < all@.len() {
            assert(views[i] == found@[i]@);
            assert(j@->Array_0[i] == crate::json::json_view(all@[i]));
        }
    }
}

/// A text under a key is what is got from there, where that is a text.
pub proof fn texts_are_got(
    j: Json,
    key: &str,
    r: Option<&str>,
    got: Option<&Json>,
    text: Option<&str>,
)
    requires
        call_ensures(Json::get_text, (&j, key), r),
        call_ensures(Json::get, (&j, key), got),
        got matches Some(v) ==> call_ensures(Json::as_text, (v,), text),
    ensures
        got is None ==> r is None,
        got is Some ==> (r is Some <==> text is Some),
        got is Some ==> (r matches Some(t) ==> t@ == text.unwrap()@),
{
}

/// The keys of an object are those from under which something is got, each of them once.
pub proof fn keys_are_listed(j: Json, r: Vec<String>, key: &str, got: Option<&Json>, a: int, b: int)
    requires
        call_ensures(Json::keys, (&j,), r),
        call_ensures(Json::get, (&j, key), got),
    ensures
        got is Some <==> exists|i: int| 0 <= i < r@.len() && (#[trigger] r@[i])@ == key@,
        0 <= a < b < r@.len() ==> r@[a]@ != r@[b]@,
{
    assert(crate::json::field(j@, key@) is Some <==> exists|i: int|
        0 <= i < r@.len() && r@[i]@ == key@);
}

/// A path of keys leads on from what is got from under its first; a path without keys leads
/// nowhere else.
pub proof fn paths_are_followed(
    j: Json,
    path: Vec<&str>,
    depth: usize,
    r: Option<&Json>,
    first: Option<&Json>,
    rest: Option<&Json>,
)
    requires
        call_ensures(Json::pointer, (&j, &path, depth), r),
        depth < path@.len() ==> call_ensures(Json::get, (&j, path@[depth as int]), first),
        depth < path@.len() && first is Some ==> call_ensures(
            Json::pointer,
            (first.unwrap(), &path, (depth + 1) as usize),
            rest,
        ),
        depth < usize::MAX,
    ensures
        depth == path@.len() ==> (r matches Some(v) && v@ == j@),
        depth < path@.len() && first is None ==> r is None,
        depth < path@.len() && first is Some ==> seen(r) == seen(rest),
{
    let views = crate::text::views(path@);
    let here = views.skip(depth as int);
    assert(views.len() == path@.len());
    if depth < path@.len() {
        assert(here[0] == path@[depth as int]@);
        assert(here.drop_first() =~= views.skip(depth + 1));
    } else if depth == path@.len() {
        assert(here.len() == 0);
    }
}

/// An item is replaced in the array itself at the end of a path, and within what stands under
/// the first key of a longer path; all that stands beside it stays.
pub proof fn items_are_replaced(
    j: &mut Json,
    path: Vec<&str>,
    depth: usize,
    index: usize,
    value: Json,
    i: int,
    key: Seq<char>,
    inner: &mut Json,
)
    requires
        call_ensures(Json::set_item, (j, &path, depth, index, value), ()),
        depth < usize::MAX,
    ensures
        depth == path@.len() ==> (old(j)@ matches JsonView::Array(items) ==> {
            &&& final(j)@ matches JsonView::Array(after)
            &&& after.len() == items.len()
            &&& 0 <= i < items.len() ==> after[i] == if i == index {
                value@
            } else {
                items[i]
            }
        }),
        depth < path@.len() ==> {
            let first = path@[depth as int]@;
            &&& key != first ==> crate::laws::syncs::under(Some(final(j)@), key)
                == crate::laws::syncs::under(Some(old(j)@), key)
            &&& crate::laws::syncs::under(Some(old(j)@), first) is None ==> final(j)@ == old(j)@
            &&& crate::laws::syncs::under(Some(old(j)@), first) == Some(old(inner)@)
                && call_ensures(
                Json::set_item,
                (inner, &path, (depth + 1) as usize, index, value),
                (),
            ) ==> crate::laws::syncs::under(Some(final(j)@), first) == Some(final(inner)@)
        },
{
    let views = crate::text::views(path@);
    let here = views.skip(depth as int);
    assert(views.len() == path@.len());
    if depth < path@.len() {
        assert(here[0] == path@[depth as int]@);
        assert(here.drop_first() =~= views.skip(depth + 1));
    } else if depth == path@.len() {
        assert(here.len() == 0);
    }
}

/// One part of a record stands under its key in an object, and at its place in an array of as
/// many items as the record has parts.
pub proof fn parts_are_got(
    j: Json,
    key: &str,
    place: usize,
    count: usize,
    r: Option<&Json>,
    got: Option<&Json>,
)
    requires
        place < count,
        call_ensures(Json::part, (&j, key, place, count), r),
        call_ensures(Json::get, (&j, key), got),
    ensures
        j is Object ==> seen(r) == seen(got),
        j matches Json::Array(items) ==> {
            &&& r is Some <==> items@.len() == count
            &&& r matches Some(v) ==> v@ == items@[place as int]@
        },
        !(j is Object) && !(j is Array) ==> r is None,
{
    if let Json::Array(items) = j {
        assert(j@->Array_0.len() == items@.len());
        if items@.len() == count {
            assert(j@->Array_0[place as int] == crate::json::json_view(items@[place as int]));
        }
    }
}

/// A text in a JSON text is read as the part of the record that the text holds.
pub proof fn texts_are_read(
    bytes: &[u8],
    key: &str,
    place: usize,
    count: usize,
    r: Option<String>,
    parsed: Option<Json>,
    found: Option<&Json>,
    text: Option<&str>,
)
    requires
        place < count,
        call_ensures(Json::text_in, (bytes, key, place, count), r),
        call_ensures(Json::parse, (bytes,), parsed),
        parsed is Some ==> call_ensures(
            Json::part,
            (&parsed.unwrap(), key, place, count),
            found,
        ),
        found is Some ==> call_ensures(Json::as_text, (found.unwrap(),), text),
    ensures
        r is Some <==> parsed is Some && found is Some && text is Some,
        r matches Some(t) ==> t@ == text.unwrap()@,
{
}

/// What was written is parsed as what it was, wherever reading gives it back.
pub proof fn written_values_are_parsed(
    j: Json,
    written: String,
    bytes: &[u8],
    parsed: Option<Json>,
)
    requires
        call_ensures(Json::write, (j,), written),
        call_ensures(Json::parse, (bytes,), parsed),
        bytes@ == vstd::utf8::encode_utf8(written@),
        crate::json::reads_back(j@),
    ensures
        parsed matches Some(p) && p@ == j@,
{
}

/// What an optional list of texts means.
pub open spec fn seen_texts(v: Option<&Vec<String>>) -> Option<Seq<Seq<char>>> {
    match v {
        Some(t) => Some(t@.map_values(|s: String| s@)),
        None => None,
    }
}

/// What was stored under a key of a table is got from there, and all else stays.
pub proof fn stored_rows_are_got(
    table: &mut Table,
    key: Vec<String>,
    value: Vec<String>,
    earlier: Table,
    later: Table,
    other: Vec<String>,
    before: Option<&Vec<String>>,
    after: Option<&Vec<String>>,
)
    requires
        call_ensures(Table::update, (table, key, value), ()),
        call_ensures(Table::get, (&earlier, &other), before),
        call_ensures(Table::get, (&later, &other), after),
        crate::table::unique(old(table)@),
        earlier@ == old(table)@,
    ensures
        later@ == final(table)@ ==> seen_texts(after) == if other@.map_values(|s: String| s@)
            == key@.map_values(|s: String| s@) {
            Some(value@.map_values(|s: String| s@))
        } else {
            seen_texts(before)
        },
{
    crate::table::lemma_updated(
        old(table)@,
        crate::table::chars_of(key@),
        crate::table::chars_of(value@),
        crate::table::chars_of(other@),
    );
}

/// What is added under a key of a table is got from there, unless something stood there
/// already, which stays, as all else does.
pub proof fn added_rows_are_got(
    table: &mut Table,
    key: Vec<String>,
    value: Vec<String>,
    earlier: Table,
    later: Table,
    other: Vec<String>,
    before: Option<&Vec<String>>,
    after: Option<&Vec<String>>,
)
    requires
        call_ensures(Table::extend, (table, key, value), ()),
        call_ensures(Table::get, (&earlier, &other), before),
        call_ensures(Table::get, (&later, &other), after),
        crate::table::unique(old(table)@),
        earlier@ == old(table)@,
    ensures
        later@ == final(table)@ ==> seen_texts(after) == if before is None && other@.map_values(
            |s: String| s@,
        ) == key@.map_values(|s: String| s@) {
            Some(value@.map_values(|s: String| s@))
        } else {
            seen_texts(before)
        },
{
    crate::table::lemma_extended(
        old(table)@,
        crate::table::chars_of(key@),
        crate::table::chars_of(value@),
        crate::table::chars_of(other@),
    );
}

/// What is taken out from under a key of a table is gone, and all else stays.
pub proof fn removed_rows_are_gone(
    table: &mut Table,
    key: Vec<String>,
    earlier: Table,
    later: Table,
    other: Vec<String>,
    before: Option<&Vec<String>>,
    after: Option<&Vec<String>>,
)
    requires
        call_ensures(Table::remove, (table, &key), ()),
        call_ensures(Table::get, (&earlier, &other), before),
        call_ensures(Table::get, (&later, &other), after),
        crate::table::unique(old(table)@),
        earlier@ == old(table)@,
    ensures
        later@ == final(table)@ ==> seen_texts(after) == if other@.map_values(|s: String| s@)
            == key@.map_values(|s: String| s@) {
            None
        } else {
            seen_texts(before)
        },
{
    crate::table::lemma_without(
        old(table)@,
        crate::table::chars_of(key@),
        crate::table::chars_of(other@),
    );
}

} // verus!

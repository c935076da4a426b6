//! A notebook's content file, which lists its pages in order.
use vstd::prelude::*;

use crate::outside::{
    is_readable, json_array, json_contents, json_member, json_parsed, json_pretty, json_text,
    parse_json, print_json, Json,
};
use crate::task::{optional_text, Failure, FailureView};

verus! {

/// The content of a notebook.
#[derive(Debug)]
pub struct Content {
    value: serde_json::Value,
}

impl View for Content {
    type V = Json;

    closed spec fn view(&self) -> Json {
        json_contents(self.value)
    }
}

/// The identifier of a page entry, where it has one that is a text.
pub open spec fn page_id_of(page: Json) -> Option<Seq<char>> {
    match page.member("id"@) {
        Json::Text(id) => Some(id),
        _ => None,
    }
}

/// The identifiers of the page entries in order, where the content has a list of pages.
pub open spec fn page_ids_of(content: Json) -> Option<Seq<Option<Seq<char>>>> {
    match content.member("cPages"@).member("pages"@) {
        Json::Array(pages) => Some(pages.map_values(|page: Json| page_id_of(page))),
        _ => None,
    }
}

/// Contents that are the same but for numbers with a fraction or an exponent list the same pages.
pub proof fn law_like_contents_list_the_same_pages(a: Json, b: Json)
    requires
        a.is_like(b),
    ensures
        page_ids_of(a) == page_ids_of(b),
{
    lemma_like_members(a, b, "cPages"@);
    lemma_like_members(a.member("cPages"@), b.member("cPages"@), "pages"@);
    let x = a.member("cPages"@).member("pages"@);
    let y = b.member("cPages"@).member("pages"@);
    if x is Array {
        let xs = x->Array_0;
        let ys = y->Array_0;
        assert forall|i: int| 0 <= i < xs.len() implies page_id_of(xs[i]) == page_id_of(ys[i]) by {
            lemma_like_members(xs[i], ys[i], "id"@);
        }
        assert(page_ids_of(a)->0 =~= page_ids_of(b)->0);
    }
}

proof fn lemma_like_members(a: Json, b: Json, key: Seq<char>)
    requires
        a.is_like(b),
    ensures
        a.member(key).is_like(b.member(key)),
{
    if a is Object {
        let members = a->Object_0;
        let found = b->Object_0;
        assert(members.dom().contains(key) == found.dom().contains(key));
        if members.contains_key(key) {
            assert(members[key].is_like(found[key]));
        }
    }
}

/// The texts of a list of optional strings.
pub open spec fn optional_texts(list: Seq<Option<String>>) -> Seq<Option<Seq<char>>> {
    list.map_values(|s: Option<String>| optional_text(s))
}

impl Content {
    #[verifier::type_invariant]
    spec fn was_read(self) -> bool {
        is_readable(self@)
    }

    /// Reads a content file.
    pub fn parse(raw: &str) -> (r: Result<Content, Failure>)
        ensures
            match r {
                Ok(content) => json_parsed(raw@) == Ok::<Json, serde_json::Error>(content@),
                Err(failure) => json_parsed(raw@) is Err && failure@ == FailureView::BadContent(
                    json_parsed(raw@)->Err_0,
                ),
            },
    {
        match parse_json(raw) {
            Ok(value) => Ok(Content { value }),
            Err(error) => Err(Failure::BadContent(error)),
        }
    }

    /// The identifiers of the notebook's pages, in order.
    pub fn page_ids(&self) -> (r: Result<Vec<Option<String>>, Failure>)
        ensures
            match r {
                Ok(ids) => page_ids_of(self@) == Some(optional_texts(ids@)),
                Err(failure) => page_ids_of(self@) is None && failure@ == FailureView::NoPages,
            },
    {
        let listed = json_array(json_member(json_member(&self.value, "cPages"), "pages"));
        match listed {
            Some(pages) => {
                let ghost ids = page_ids_of(self@)->0;
                let mut out: Vec<Option<String>> = Vec::new();
                let mut i: usize = 0;
                while i < pages.len()
                    invariant
                        i <= pages.len(),
                        out@.len() == i,
                        ids.len() == pages@.len(),
                        forall|k: int|
                            0 <= k < pages@.len() ==> #[trigger] ids[k] == page_id_of(
                                json_contents(pages@[k]),
                            ),
                        forall|k: int| 0 <= k < i ==> optional_text(#[trigger] out@[k]) == ids[k],
                    decreases pages.len() - i,
                {
                    assert(ids[i as int] == page_id_of(json_contents(pages@[i as int])));
                    let id = match json_text(json_member(&pages[i], "id")) {
                        Some(text) => Some(text.to_owned()),
                        None => None,
                    };
                    out.push(id);
                    i += 1;
                }
                assert(optional_texts(out@) =~= ids);
                Ok(out)
            },
            None => Err(Failure::NoPages),
        }
    }

    /// The content as indented JSON text, from which it is read back unless a number in it has a
    /// fraction or an exponent. Where it has, nothing else than such numbers can be read otherwise.
    pub fn to_pretty(&self) -> (r: Result<String, Failure>)
        ensures
            match r {
                Ok(text) => json_pretty(self@) == Ok::<Seq<char>, serde_json::Error>(text@) && (
                self@.is_whole() ==> json_parsed(text@) == Ok::<Json, serde_json::Error>(self@))
                    && (json_parsed(text@) matches Ok(found) ==> self@.is_like(found)),
                Err(failure) => json_pretty(self@) is Err && failure@
                    == FailureView::UnprintableContent(json_pretty(self@)->Err_0),
            },
    {
        proof {
            use_type_invariant(self);
        }
        match print_json(&self.value) {
            Ok(text) => Ok(text),
            Err(error) => Err(Failure::UnprintableContent(error)),
        }
    }
}

/// Whether `content` has the list `entries` under `pages` in `cPages`.
pub open spec fn lists_entries(content: Json, entries: Seq<Json>) -> bool {
    content matches Json::Object(top) && top.contains_key("cPages"@) && (top["cPages"@] matches
        Json::Object(inner) && inner.contains_key("pages"@) && inner["pages"@] == Json::Array(entries))
}

/// Every entry of the list is a page, in the same order, and its identifier is the text under `id`.
pub proof fn law_every_entry_is_a_page(content: Json, entries: Seq<Json>, k: int)
    requires
        lists_entries(content, entries),
        0 <= k < entries.len(),
    ensures
        page_ids_of(content) is Some,
        page_ids_of(content)->0.len() == entries.len(),
        entries[k] matches Json::Object(members) ==> members.contains_key("id"@) ==> (
        members["id"@] matches Json::Text(id) ==> page_ids_of(content)->0[k] == Some(id)),
        entries[k] matches Json::Object(members) ==> !members.contains_key("id"@) || !(
        members["id"@] is Text) ==> page_ids_of(content)->0[k] is None,
        !(entries[k] is Object) ==> page_ids_of(content)->0[k] is None,
{
}

/// Content has pages exactly where it has the list, and as many as the list has entries.
pub proof fn law_pages_are_as_many_as_entries(content: Json)
    ensures
        page_ids_of(content) matches Some(ids) ==> exists|entries: Seq<Json>| #[trigger]
            lists_entries(content, entries) && entries.len() == ids.len(),
        (exists|entries: Seq<Json>| lists_entries(content, entries)) ==> page_ids_of(
            content,
        ) is Some,
{
    if page_ids_of(content) is Some {
        let entries = content.member("cPages"@).member("pages"@)->Array_0;
        assert(lists_entries(content, entries));
    }
}

/// The texts of a list of optional strings are those of its strings, in order.
pub proof fn law_optional_texts_are_those_of_the_strings(list: Seq<Option<String>>, i: int)
    requires
        0 <= i < list.len(),
    ensures
        optional_texts(list).len() == list.len(),
        list[i] matches Some(text) ==> optional_texts(list)[i] == Some(text@),
        list[i] is None ==> optional_texts(list)[i] is None,
        optional_texts(Seq::empty()).len() == 0,
{
}

} // verus!

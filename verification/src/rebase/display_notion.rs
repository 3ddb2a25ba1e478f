//! Notion export of a rebase daily answer.
use vstd::prelude::*;
use crate::json::{is_record, JsonValue};
use crate::rebase::types::{episode_entries, episode_members, RebaseDaliy};

verus! {

/// One notion page record per episode of the answer, in order.
pub fn convert_to_json_value(notion_page: &RebaseDaliy) -> (r: Vec<JsonValue>)
    ensures
        r.len() == notion_page.data.len(),
        forall|i: int|
            0 <= i < r.len() ==> is_record(#[trigger] r@[i], episode_entries(notion_page.data@[i].attributes)),
        forall|i: int| 0 <= i < r.len() ==> episode_members(#[trigger] r@[i], notion_page.data@[i].attributes),
{
    notion_page.convert_to_json_value()
}

} // verus!

//! The link resolver: derives, from a fetched epic, the linked story
//! identifiers to fetch next.
use crate::model::IssueRecord;
use crate::model::IssueView;
use crate::model::RunError;
use vstd::prelude::*;

verus! {

/// Whether some link entry of the record lacks an outward-issue target.
pub open spec fn has_malformed_link(rec: IssueView) -> bool {
    exists|i: int| 0 <= i < rec.links.len() && #[trigger] rec.links[i] is None
}

/// The outward-issue keys of the record's links, in link order, neither
/// de-duplicated nor sorted. Meaningful where no link is malformed.
pub open spec fn link_keys(rec: IssueView) -> Seq<Seq<char>> {
    rec.links.map_values(
        |l: Option<Seq<char>>|
            match l {
                Option::Some(k) => k,
                Option::None => Seq::empty(),
            },
    )
}

/// Extracts the identifiers of the epic's linked stories, in link order. A
/// link entry without an outward-issue target makes the fetched epic
/// malformed: the resolver then answers the malformed-link error — and only
/// then — so that the run aborts rather than skipping the entry.
pub fn linked_story_ids(epic: &IssueRecord) -> (r: Result<Vec<String>, RunError>)
    ensures
        r is Err <==> has_malformed_link(epic@),
        r matches Err(e) ==> e == RunError::MalformedLink,
        r matches Ok(ids) ==> ids.deep_view() == link_keys(epic@),
{
    let mut ids: Vec<String> = Vec::new();
    let mut i: usize = 0;
    while i < epic.links.len()
        invariant
            i <= epic.links@.len(),
            epic@.links.len() == epic.links@.len(),
            forall|j: int| 0 <= j < i ==> !(#[trigger] epic@.links[j] is None),
            ids@.len() == i,
            forall|j: int| 0 <= j < i ==> #[trigger] ids@[j]@ == link_keys(epic@)[j],
        decreases epic.links@.len() - i,
    {
        proof {
            assert(epic.links.deep_view()[i as int] == epic.links@[i as int]@);
        }
        match &epic.links[i].outward_key {
            Option::Some(k) => {
                proof {
                    assert(epic@.links[i as int] matches Option::Some(v) && v == k@);
                }
                ids.push(k.clone());
            },
            Option::None => {
                proof {
                    assert(epic@.links[i as int] is None);
                }
                return Result::Err(RunError::MalformedLink);
            },
        }
        i = i + 1;
    }
    proof {
        assert(!has_malformed_link(epic@));
        assert(ids.deep_view() =~~= link_keys(epic@));
    }
    Result::Ok(ids)
}

/// Law: an epic without outward links is well formed and yields no story
/// identifiers — rendering such an epic contributes exactly its own
/// fragment, and no story fetch follows from it.
pub proof fn lemma_no_links_no_stories(rec: IssueView)
    requires
        rec.links.len() == 0,
    ensures
        !has_malformed_link(rec),
        link_keys(rec).len() == 0,
{
}

} // verus!

//! Copying a presentation into another library: the copy is a new song with
//! fresh slide ids, and each slide's stage-layout marker follows its slide.
use crate::error::RepositoryError;
use vstd::prelude::*;
use vstd::string::StringExecFns;

verus! {

/// A stage-layout marker of a slide.
#[derive(Debug, Clone)]
pub struct StageMarker {
    pub slide_id: String,
    pub layout_code: String,
}

/// One slide of the copy: its position, its fresh id, and the index of the
/// source slide whose content it takes.
#[derive(Debug, Clone)]
pub struct SlideCopy {
    pub position: i32,
    pub slide_id: String,
    pub source_index: usize,
}

/// What the copy writes: a new live presentation under its fresh id and
/// fresh sync identity, in the target library, under the source's name; its
/// slides in order; and the markers that follow them onto the fresh ids.
#[derive(Debug, Clone)]
pub struct PresentationCopyPlan {
    pub presentation_id: String,
    pub library_id: String,
    pub name: String,
    pub sync_id: String,
    pub slides: Vec<SlideCopy>,
    pub markers: Vec<StageMarker>,
}

/// The index of the first marker of slide `id`, if any.
pub open spec fn first_marker(markers: Seq<StageMarker>, id: Seq<char>) -> Option<int>
    decreases markers.len(),
{
    if markers.len() == 0 {
        None
    } else if markers[0].slide_id@ == id {
        Some(0)
    } else {
        match first_marker(markers.drop_first(), id) {
            Some(k) => Some(k + 1),
            None => None,
        }
    }
}

/// The markers of the copy for its first `n` slides, as (fresh slide id,
/// layout code), in slide order.
pub open spec fn copied_markers(
    source: Seq<Seq<char>>,
    fresh: Seq<Seq<char>>,
    markers: Seq<StageMarker>,
    n: nat,
) -> Seq<(Seq<char>, Seq<char>)>
    decreases n,
{
    if n == 0 {
        Seq::empty()
    } else {
        let rest = copied_markers(source, fresh, markers, (n - 1) as nat);
        match first_marker(markers, source[n - 1]) {
            Some(k) => rest.push((fresh[n - 1], markers[k].layout_code@)),
            None => rest,
        }
    }
}

/// The views of a list of ids.
pub open spec fn id_views(ids: Seq<String>) -> Seq<Seq<char>> {
    ids.map_values(|s: String| s@)
}

proof fn lemma_first_marker_at(markers: Seq<StageMarker>, id: Seq<char>, j: int)
    requires
        0 <= j <= markers.len(),
        forall|q: int| 0 <= q < j ==> markers[q].slide_id@ != id,
        j < markers.len() ==> markers[j].slide_id@ == id,
    ensures
        first_marker(markers, id) == (if j < markers.len() {
            Some(j)
        } else {
            None::<int>
        }),
    decreases j,
{
    if j > 0 {
        let t = markers.drop_first();
        assert(markers[0].slide_id@ != id);
        assert forall|q: int| 0 <= q < j - 1 implies t[q].slide_id@ != id by {
            assert(t[q] == markers[q + 1]);
        }
        if j < markers.len() {
            assert(t[j - 1] == markers[j]);
        }
        lemma_first_marker_at(t, id, j - 1);
    }
}

fn find_marker(markers: &Vec<StageMarker>, id: &str) -> (r: Option<usize>)
    ensures
        r matches Some(k) ==> k < markers@.len() && first_marker(markers@, id@) == Some(k as int),
        r is None ==> first_marker(markers@, id@) is None,
{
    let mut j: usize = 0;
    while j < markers.len()
        invariant
            j <= markers.len(),
            forall|q: int| 0 <= q < j ==> markers@[q].slide_id@ != id@,
        decreases markers.len() - j,
    {
        if crate::text::str_equal(markers[j].slide_id.as_str(), id) {
            proof {
                lemma_first_marker_at(markers@, id@, j as int);
            }
            return Some(j);
        }
        j = j + 1;
    }
    proof {
        lemma_first_marker_at(markers@, id@, j as int);
    }
    None
}

/// The plan of a copy. The target library must exist (else `TargetNotFound`)
/// and the source must be a live presentation (else `NotFound`); the copy
/// takes `fresh_presentation_id` and `fresh_sync_id`, lands in the target
/// library under the source's name; slide `i` of the source becomes slide
/// `i` of the copy, with the same content, under `fresh_slide_ids[i]`; and
/// the first marker of each source slide is carried onto its fresh id.
pub fn plan_presentation_copy(
    target_library_id: &str,
    target_library_found: bool,
    source_found: bool,
    source_name: &str,
    source_slide_ids: &Vec<String>,
    markers: &Vec<StageMarker>,
    fresh_presentation_id: &str,
    fresh_sync_id: &str,
    fresh_slide_ids: &Vec<String>,
) -> (r: Result<PresentationCopyPlan, RepositoryError>)
    requires
        fresh_slide_ids@.len() == source_slide_ids@.len(),
        source_slide_ids@.len() <= i32::MAX,
    ensures
        !target_library_found ==> r == Err::<PresentationCopyPlan, RepositoryError>(
            RepositoryError::TargetNotFound("target library not found"),
        ),
        target_library_found && !source_found ==> r == Err::<
            PresentationCopyPlan,
            RepositoryError,
        >(RepositoryError::NotFound("presentation not found")),
        target_library_found && source_found ==> (r matches Ok(plan) && {
            &&& plan.presentation_id@ == fresh_presentation_id@
            &&& plan.library_id@ == target_library_id@
            &&& plan.name@ == source_name@
            &&& plan.sync_id@ == fresh_sync_id@
            &&& plan.slides@.len() == source_slide_ids@.len()
            &&& forall|i: int|
                0 <= i < plan.slides@.len() ==> #[trigger] plan.slides@[i].position == i
                    && plan.slides@[i].slide_id@ == fresh_slide_ids@[i]@
                    && plan.slides@[i].source_index == i
            &&& plan.markers@.len() == copied_markers(
                id_views(source_slide_ids@),
                id_views(fresh_slide_ids@),
                markers@,
                source_slide_ids@.len(),
            ).len()
            &&& forall|j: int|
                0 <= j < plan.markers@.len() ==> (#[trigger] plan.markers@[j].slide_id@,
                plan.markers@[j].layout_code@) == copied_markers(
                    id_views(source_slide_ids@),
                    id_views(fresh_slide_ids@),
                    markers@,
                    source_slide_ids@.len(),
                )[j]
        }),
{
    if !target_library_found {
        return Err(RepositoryError::TargetNotFound("target library not found"));
    }
    if !source_found {
        return Err(RepositoryError::NotFound("presentation not found"));
    }
    let ghost src = id_views(source_slide_ids@);
    let ghost fr = id_views(fresh_slide_ids@);
    let mut slides: Vec<SlideCopy> = Vec::new();
    let mut copies: Vec<StageMarker> = Vec::new();
    let mut i: usize = 0;
    while i < source_slide_ids.len()
        invariant
            i <= source_slide_ids@.len(),
            fresh_slide_ids@.len() == source_slide_ids@.len(),
            source_slide_ids@.len() <= i32::MAX,
            src == id_views(source_slide_ids@),
            fr == id_views(fresh_slide_ids@),
            slides@.len() == i,
            forall|k: int|
                0 <= k < i ==> #[trigger] slides@[k].position == k && slides@[k].slide_id@
                    == fresh_slide_ids@[k]@ && slides@[k].source_index == k,
            copies@.len() == copied_markers(src, fr, markers@, i as nat).len(),
            forall|j: int|
                0 <= j < copies@.len() ==> (#[trigger] copies@[j].slide_id@,
                copies@[j].layout_code@) == copied_markers(src, fr, markers@, i as nat)[j],
        decreases source_slide_ids.len() - i,
    {
        let fresh = fresh_slide_ids[i].clone();
        slides.push(SlideCopy { position: i as i32, slide_id: fresh.clone(), source_index: i });
        let src_id = source_slide_ids[i].as_str();
        let found = find_marker(markers, src_id);
        assert(src_id@ == source_slide_ids@[i as int]@);
        assert(src[i as int] == source_slide_ids@[i as int]@);
        assert(fr[i as int] == fresh_slide_ids@[i as int]@);
        let ghost before = copies@;
        let ghost prev = copied_markers(src, fr, markers@, i as nat);
        let ghost next = copied_markers(src, fr, markers@, (i + 1) as nat);
        match found {
            Some(k) => {
                let code = markers[k].layout_code.clone();
                let ghost entry = (fr[i as int], markers@[k as int].layout_code@);
                assert(first_marker(markers@, src[i as int]) == Some(k as int));
                assert(next == prev.push(entry));
                copies.push(StageMarker { slide_id: fresh, layout_code: code });
                assert forall|j: int| 0 <= j < copies@.len() implies (
                #[trigger] copies@[j].slide_id@, copies@[j].layout_code@) == next[j] by {
                    if j < before.len() {
                        assert(copies@[j] == before[j]);
                    }
                }
            },
            None => {
                assert(next == prev);
            },
        }
        i = i + 1;
    }
    Ok(
        PresentationCopyPlan {
            presentation_id: String::from_str(fresh_presentation_id),
            library_id: String::from_str(target_library_id),
            name: String::from_str(source_name),
            sync_id: String::from_str(fresh_sync_id),
            slides,
            markers: copies,
        },
    )
}

} // verus!

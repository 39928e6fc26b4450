//! Rows of the navigator panel: scene files and scene objects, each group
//! under a collapsible header.
use vstd::prelude::*;

verus! {

#[derive(Clone, Copy, PartialEq, Eq, Debug, Structural)]
pub enum NavGroup {
    Scenes,
    Objects,
}

#[derive(Clone, PartialEq, Eq, Debug)]
pub enum NavRow {
    GroupHeader { group: NavGroup },
    SceneFile { file_index: usize },
    Object { object_id: String },
    /// Shown in an open group that has nothing in it.
    EmptyHint { group: NavGroup },
}

/// A row with its object id as characters.
pub enum NavRowView {
    GroupHeader { group: NavGroup },
    SceneFile { file_index: usize },
    Object { object_id: Seq<char> },
    EmptyHint { group: NavGroup },
}

pub open spec fn row_view(r: NavRow) -> NavRowView {
    match r {
        NavRow::GroupHeader { group } => NavRowView::GroupHeader { group },
        NavRow::SceneFile { file_index } => NavRowView::SceneFile { file_index },
        NavRow::Object { object_id } => NavRowView::Object { object_id: object_id@ },
        NavRow::EmptyHint { group } => NavRowView::EmptyHint { group },
    }
}

pub open spec fn rows_view(rows: Seq<NavRow>) -> Seq<NavRowView> {
    rows.map_values(|r: NavRow| row_view(r))
}

pub open spec fn object_rows(ids: Seq<String>) -> Seq<NavRowView> {
    Seq::new(ids.len(), |i: int| NavRowView::Object { object_id: ids[i]@ })
}

pub open spec fn file_rows(n: nat) -> Seq<NavRowView> {
    Seq::new(n, |i: int| NavRowView::SceneFile { file_index: i as usize })
}

proof fn lemma_rows_view_push(rows: Seq<NavRow>, r: NavRow)
    ensures
        rows_view(rows.push(r)) == rows_view(rows).push(row_view(r)),
{
    assert(rows_view(rows.push(r)) =~= rows_view(rows).push(row_view(r)));
}

/// Rows of one group: its header, then (when open) a hint if it is empty,
/// then its entries.
pub open spec fn group_rows(group: NavGroup, open: bool, entries: Seq<NavRowView>) -> Seq<
    NavRowView,
> {
    seq![NavRowView::GroupHeader { group }] + if open {
        (if entries.len() == 0 {
            seq![NavRowView::EmptyHint { group }]
        } else {
            Seq::empty()
        }) + entries
    } else {
        Seq::empty()
    }
}

/// All navigator rows: the scene files group, then the objects group.
pub open spec fn spec_nav_rows(
    scenes_open: bool,
    file_count: nat,
    objects_open: bool,
    object_ids: Seq<Seq<char>>,
) -> Seq<NavRowView> {
    group_rows(NavGroup::Scenes, scenes_open, file_rows(file_count)) + group_rows(
        NavGroup::Objects,
        objects_open,
        object_ids.map_values(|id: Seq<char>| NavRowView::Object { object_id: id }),
    )
}

/// Number of rows a group takes: its header, and when open a hint if it is
/// empty plus one row per entry.
pub open spec fn group_len(open: bool, n: nat) -> nat {
    if open {
        1 + (if n == 0 {
            1nat
        } else {
            0nat
        }) + n
    } else {
        1
    }
}

/// Law: the navigator lists the scene files' header first and the objects'
/// header right after the scene group; a closed group shows only its header,
/// an open empty group its header and a hint, and an open group lists its
/// entries in order (scene file `i`, object `ids[j]`) right after the header.
pub proof fn lemma_nav_layout(
    scenes_open: bool,
    file_count: nat,
    objects_open: bool,
    ids: Seq<Seq<char>>,
)
    ensures
        ({
            let rows = spec_nav_rows(scenes_open, file_count, objects_open, ids);
            let a = group_len(scenes_open, file_count) as int;
            &&& rows.len() == a + group_len(objects_open, ids.len())
            &&& rows[0] == NavRowView::GroupHeader { group: NavGroup::Scenes }
            &&& rows[a] == NavRowView::GroupHeader { group: NavGroup::Objects }
            &&& scenes_open && file_count == 0 ==> rows[1] == NavRowView::EmptyHint {
                group: NavGroup::Scenes,
            }
            &&& objects_open && ids.len() == 0 ==> rows[a + 1] == NavRowView::EmptyHint {
                group: NavGroup::Objects,
            }
            &&& scenes_open ==> forall|i: int|
                0 <= i < file_count ==> #[trigger] rows[1 + i] == NavRowView::SceneFile {
                    file_index: i as usize,
                }
            &&& objects_open ==> forall|j: int|
                0 <= j < ids.len() ==> #[trigger] rows[a + 1 + j] == NavRowView::Object {
                    object_id: ids[j],
                }
        }),
{
    let rows = spec_nav_rows(scenes_open, file_count, objects_open, ids);
    let g1 = group_rows(NavGroup::Scenes, scenes_open, file_rows(file_count));
    let ents = ids.map_values(|id: Seq<char>| NavRowView::Object { object_id: id });
    let g2 = group_rows(NavGroup::Objects, objects_open, ents);
    assert(g1.len() == group_len(scenes_open, file_count));
    assert(g2.len() == group_len(objects_open, ids.len()));
    let a = g1.len() as int;
    assert(rows[a] == g2[0]);
    if scenes_open {
        assert forall|i: int| 0 <= i < file_count implies #[trigger] rows[1 + i]
            == NavRowView::SceneFile { file_index: i as usize } by {
            assert(rows[1 + i] == g1[1 + i]);
        }
    }
    if objects_open {
        assert forall|j: int| 0 <= j < ids.len() implies #[trigger] rows[a + 1 + j]
            == NavRowView::Object { object_id: ids[j] } by {
            assert(rows[a + 1 + j] == g2[1 + j]);
            assert(g2[1 + j] == ents[j]);
        }
    }
}

/// The navigator's rows for `file_count` scene files and the scene objects
/// with ids `object_ids`, given which groups are open.
pub fn nav_rows(
    scenes_open: bool,
    file_count: usize,
    objects_open: bool,
    object_ids: &Vec<String>,
) -> (rows: Vec<NavRow>)
    ensures
        rows_view(rows@) == spec_nav_rows(
            scenes_open,
            file_count as nat,
            objects_open,
            object_ids@.map_values(|s: String| s@),
        ),
{
    let mut rows: Vec<NavRow> = Vec::new();
    let ghost files = file_rows(file_count as nat);
    let ghost objs = object_rows(object_ids@);
    assert(objs =~= object_ids@.map_values(|s: String| s@).map_values(
        |id: Seq<char>| NavRowView::Object { object_id: id },
    ));
    rows.push(NavRow::GroupHeader { group: NavGroup::Scenes });
    if scenes_open {
        if file_count == 0 {
            rows.push(NavRow::EmptyHint { group: NavGroup::Scenes });
        }
        let ghost base = rows_view(rows@);
        let mut i: usize = 0;
        while i < file_count
            invariant
                i <= file_count,
                files == file_rows(file_count as nat),
                rows_view(rows@) == base + files.subrange(0, i as int),
            decreases file_count - i,
        {
            proof {
                lemma_rows_view_push(rows@, NavRow::SceneFile { file_index: i });
            }
            rows.push(NavRow::SceneFile { file_index: i });
            assert(rows_view(rows@) =~= base + files.subrange(0, i + 1));
            i = i + 1;
        }
        assert(files.subrange(0, file_count as int) =~= files);
    }
    assert(rows_view(rows@) =~= group_rows(
        NavGroup::Scenes,
        scenes_open,
        files,
    ));
    let ghost first = rows_view(rows@);
    rows.push(NavRow::GroupHeader { group: NavGroup::Objects });
    if objects_open {
        if object_ids.len() == 0 {
            rows.push(NavRow::EmptyHint { group: NavGroup::Objects });
        }
        let ghost base = rows_view(rows@);
        let mut i: usize = 0;
        while i < object_ids.len()
            invariant
                i <= object_ids@.len(),
                objs == object_rows(object_ids@),
                rows_view(rows@) == base + objs.subrange(0, i as int),
            decreases object_ids@.len() - i,
        {
            let id = object_ids[i].clone();
            proof {
                lemma_rows_view_push(rows@, NavRow::Object { object_id: id });
            }
            rows.push(NavRow::Object { object_id: id });
            assert(rows_view(rows@) =~= base + objs.subrange(0, i + 1));
            i = i + 1;
        }
        assert(objs.subrange(0, object_ids@.len() as int) =~= objs);
    }
    assert(rows_view(rows@) =~= first + group_rows(
        NavGroup::Objects,
        objects_open,
        objs,
    ));
    rows
}

} // verus!

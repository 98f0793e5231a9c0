//! Event editions: their SQL fragments and how their maps are laid out by category.
use itertools::Itertools;
use vstd::prelude::*;

verus! {

/// The join and the filter that restrict records to those of an event edition.
pub fn get_sql_fragments() -> (r: (&'static str, &'static str))
    ensures
        r.0@ == "INNER JOIN event_edition_records eer ON r.record_id = eer.record_id"@,
        r.1@ == "AND eer.event_id = ? AND eer.edition_id = ?"@,
{
    (
        "INNER JOIN event_edition_records eer ON r.record_id = eer.record_id",
        "AND eer.event_id = ? AND eer.edition_id = ?",
    )
}

/// The fragments used when a leaderboard is rebuilt: those of an event edition if the
/// leaderboard belongs to one, else two empty fragments.
pub fn leaderboard_sql_fragments(for_event: bool) -> (r: (&'static str, &'static str))
    ensures
        for_event ==> r.0@ == "INNER JOIN event_edition_records eer ON r.record_id = eer.record_id"@
            && r.1@ == "AND eer.event_id = ? AND eer.edition_id = ?"@,
        !for_event ==> r.0@ == Seq::<char>::empty() && r.1@ == Seq::<char>::empty(),
{
    if for_event {
        get_sql_fragments()
    } else {
        proof {
            reveal_strlit("");
        }
        ("", "")
    }
}

/// An event, with the identifier of its last edition (-1 when it has none).
pub struct EventResponse {
    pub handle: String,
    pub last_edition_id: i64,
}

/// A category of an event edition.
pub struct EventCategory {
    pub id: u32,
    pub handle: String,
    pub name: String,
    pub banner_img_url: Option<String>,
}

/// A category as plain values: identifier, handle, name and banner.
pub type CategoryView = (u32, Seq<char>, Seq<char>, Option<Seq<char>>);

impl EventCategory {
    pub open spec fn view_of(&self) -> CategoryView {
        (
            self.id,
            self.handle@,
            self.name@,
            match self.banner_img_url {
                Some(url) => Some(url@),
                None => None,
            },
        )
    }
}

/// A category of the edition's answer, with how many of the edition's maps (taken in
/// order) belong to it.
pub struct CategorySlot {
    pub handle: String,
    pub name: String,
    pub banner_img_url: String,
    pub map_count: usize,
}

/// A slot as plain values: handle, name, banner (empty when missing) and number of maps.
pub type SlotView = (Seq<char>, Seq<char>, Seq<char>, nat);

impl CategorySlot {
    pub open spec fn view_of(&self) -> SlotView {
        (self.handle@, self.name@, self.banner_img_url@, self.map_count as nat)
    }
}

/// The consecutive runs of equal keys in `keys`, in order: nothing is lost or added, each
/// run is non-empty and holds one key, and two neighbouring runs hold different keys.
pub open spec fn is_runs_of(runs: Seq<Seq<Option<u32>>>, keys: Seq<Option<u32>>) -> bool {
    &&& runs.flatten() == keys
    &&& forall|i: int| 0 <= i < runs.len() ==> #[trigger] runs[i].len() > 0
    &&& forall|i: int, j: int| 0 <= i < runs.len() && 0 <= j < runs[i].len() ==> #[trigger] runs[i][j] == runs[i][0]
    &&& forall|i: int| 0 <= i < runs.len() - 1 ==> #[trigger] runs[i][0] != runs[i + 1][0]
}

/// `Itertools::group_by` on the maps' category identifiers, each group collected. Claimed of
/// it, as its documentation says: consecutive equal keys form one group, in order, and nothing
/// is lost or added.
#[verifier::external_body]
fn category_runs(keys: &[Option<u32>]) -> (runs: Vec<Vec<Option<u32>>>)
    ensures
        is_runs_of(runs@.map_values(|r: Vec<Option<u32>>| r@), keys@),
{
    let grouped = keys.iter().copied().group_by(|key| *key);
    let runs: Vec<Vec<Option<u32>>> = grouped.into_iter().map(|(_, run)| run.collect()).collect();
    runs
}

/// The runs of consecutive equal keys, built from the front.
pub open spec fn group_runs(keys: Seq<Option<u32>>) -> Seq<Seq<Option<u32>>>
    decreases keys.len(),
{
    if keys.len() == 0 {
        seq![]
    } else {
        let rest = group_runs(keys.drop_first());
        if rest.len() > 0 && rest[0][0] == keys[0] {
            rest.update(0, seq![keys[0]] + rest[0])
        } else {
            seq![seq![keys[0]]] + rest
        }
    }
}

/// [`group_runs`] groups the keys into runs.
pub proof fn lemma_group_runs(keys: Seq<Option<u32>>)
    ensures
        is_runs_of(group_runs(keys), keys),
    decreases keys.len(),
{
    if keys.len() == 0 {
        assert(group_runs(keys).flatten() =~= keys);
    } else {
        let k = keys[0];
        let tail = keys.drop_first();
        let rest = group_runs(tail);
        lemma_group_runs(tail);
        let runs = group_runs(keys);
        if rest.len() > 0 && rest[0][0] == k {
            assert(runs.drop_first() =~= rest.drop_first());
            assert(rest.flatten() == rest[0] + rest.drop_first().flatten());
            assert(runs.flatten() == runs[0] + runs.drop_first().flatten());
            assert(runs[0] == seq![k] + rest[0]);
            assert(runs.flatten() =~= seq![k] + rest.flatten());
            assert(runs.flatten() =~= keys);
            assert forall|i: int, j: int| 0 <= i < runs.len() && 0 <= j < runs[i].len() implies #[trigger] runs[i][j] == runs[i][0] by {
                if i == 0 && j > 0 {
                    assert(runs[0][j] == rest[0][j - 1]);
                }
            }
            assert forall|i: int| 0 <= i < runs.len() implies #[trigger] runs[i].len() > 0 by {}
            assert forall|i: int| 0 <= i < runs.len() - 1 implies #[trigger] runs[i][0] != runs[i + 1][0] by {
                if i == 0 {
                    assert(rest[0][0] != rest[1][0]);
                }
            }
        } else {
            assert(runs.drop_first() =~= rest);
            assert(runs.flatten() == runs[0] + runs.drop_first().flatten());
            assert(runs.flatten() =~= keys);
            assert forall|i: int, j: int| 0 <= i < runs.len() && 0 <= j < runs[i].len() implies #[trigger] runs[i][j] == runs[i][0] by {
                if i > 0 {
                    assert(runs[i] == rest[i - 1]);
                }
            }
            assert forall|i: int| 0 <= i < runs.len() implies #[trigger] runs[i].len() > 0 by {
                if i > 0 {
                    assert(runs[i] == rest[i - 1]);
                }
            }
            assert forall|i: int| 0 <= i < runs.len() - 1 implies #[trigger] runs[i][0] != runs[i + 1][0] by {
                assert(runs[i + 1] == rest[i]);
                if i > 0 {
                    assert(runs[i] == rest[i - 1]);
                }
            }
        }
    }
}

/// The runs of the tail of a grouping are the runs of what follows the first run.
proof fn lemma_runs_tail(runs: Seq<Seq<Option<u32>>>, keys: Seq<Option<u32>>)
    requires
        is_runs_of(runs, keys),
        runs.len() > 0,
    ensures
        is_runs_of(runs.drop_first(), keys.skip(runs[0].len() as int)),
        keys.take(runs[0].len() as int) == runs[0],
        runs[0].len() <= keys.len(),
        runs.len() > 1 ==> runs[0].len() < keys.len() && keys[runs[0].len() as int] == runs[1][0],
{
    let tail = runs.drop_first();
    let n = runs[0].len() as int;
    assert(keys == runs[0] + tail.flatten());
    assert(keys.take(n) =~= runs[0]);
    assert(keys.skip(n) =~= tail.flatten());
    assert forall|i: int| 0 <= i < tail.len() implies #[trigger] tail[i].len() > 0 by {
        assert(tail[i] == runs[i + 1]);
    }
    assert forall|i: int, j: int| 0 <= i < tail.len() && 0 <= j < tail[i].len() implies #[trigger] tail[i][j] == tail[i][0] by {
        assert(tail[i] == runs[i + 1]);
    }
    assert forall|i: int| 0 <= i < tail.len() - 1 implies #[trigger] tail[i][0] != tail[i + 1][0] by {
        assert(tail[i] == runs[i + 1]);
        assert(tail[i + 1] == runs[i + 2]);
    }
    if runs.len() > 1 {
        assert(tail.flatten() == tail[0] + tail.drop_first().flatten());
        assert(tail[0] == runs[1]);
        assert(runs[1].len() > 0);
        assert(keys[n] == tail.flatten()[0]);
    }
}

/// The runs of a sequence of keys are determined by the keys: two groupings into runs of
/// the same keys are the same.
pub proof fn lemma_runs_unique(a: Seq<Seq<Option<u32>>>, b: Seq<Seq<Option<u32>>>, keys: Seq<Option<u32>>)
    requires
        is_runs_of(a, keys),
        is_runs_of(b, keys),
    ensures
        a == b,
    decreases keys.len(),
{
    if a.len() == 0 || b.len() == 0 {
        if a.len() > 0 {
            assert(a.flatten() == a[0] + a.drop_first().flatten());
            assert(a[0].len() > 0);
            assert(b.flatten() =~= Seq::<Option<u32>>::empty());
        }
        if b.len() > 0 {
            assert(b.flatten() == b[0] + b.drop_first().flatten());
            assert(b[0].len() > 0);
            assert(a.flatten() =~= Seq::<Option<u32>>::empty());
        }
        assert(a =~= b);
    } else {
        lemma_runs_tail(a, keys);
        lemma_runs_tail(b, keys);
        let n = a[0].len() as int;
        let m = b[0].len() as int;
        assert(a[0][0] == keys[0] && b[0][0] == keys[0]) by {
            assert(keys.take(n)[0] == keys[0]);
            assert(keys.take(m)[0] == keys[0]);
        }
        if n < m {
            if a.len() > 1 {
                assert(keys.take(m)[n] == keys[n]);
                assert(b[0][n] == b[0][0]);
                assert(a[1][0] != a[0][0]);
            } else {
                assert(a.drop_first().flatten() =~= Seq::<Option<u32>>::empty());
                assert(keys.skip(n).len() == 0);
            }
        }
        if m < n {
            if b.len() > 1 {
                assert(keys.take(n)[m] == keys[m]);
                assert(a[0][m] == a[0][0]);
                assert(b[1][0] != b[0][0]);
            } else {
                assert(b.drop_first().flatten() =~= Seq::<Option<u32>>::empty());
                assert(keys.skip(m).len() == 0);
            }
        }
        assert(n == m);
        lemma_runs_unique(a.drop_first(), b.drop_first(), keys.skip(n));
        assert(a =~= seq![a[0]] + a.drop_first());
        assert(b =~= seq![b[0]] + b.drop_first());
    }
}

/// Index of the first category with the identifier `id`.
pub open spec fn category_index(cats: Seq<CategoryView>, id: u32) -> Option<int>
    decreases cats.len(),
{
    if cats.len() == 0 {
        None
    } else if cats[0].0 == id {
        Some(0)
    } else {
        match category_index(cats.drop_first(), id) {
            Some(i) => Some(i + 1),
            None => None,
        }
    }
}

/// `Vec::swap_remove`: the last item takes the place of the removed one.
pub open spec fn swap_remove<A>(s: Seq<A>, i: int) -> Seq<A> {
    s.update(i, s.last()).drop_last()
}

/// The slot of a category.
pub open spec fn slot_of(c: CategoryView, count: nat) -> SlotView {
    (
        c.1,
        c.2,
        match c.3 {
            Some(url) => url,
            None => Seq::<char>::empty(),
        },
        count,
    )
}

/// The layout of an edition: for each run of maps, the first category with the run's
/// identifier, taken out of the list (an empty category when there is none); then the
/// categories left, without maps.
pub open spec fn spec_layout(runs: Seq<(Option<u32>, nat)>, cats: Seq<CategoryView>) -> Seq<SlotView>
    decreases runs.len(),
{
    if runs.len() == 0 {
        cats.map_values(|c: CategoryView| slot_of(c, 0))
    } else {
        let (key, count) = runs[0];
        let found = match key {
            Some(id) => category_index(cats, id),
            None => None,
        };
        match found {
            Some(i) => seq![slot_of(cats[i], count)] + spec_layout(
                runs.drop_first(),
                swap_remove(cats, i),
            ),
            None => seq![(Seq::<char>::empty(), Seq::<char>::empty(), Seq::<char>::empty(), count)]
                + spec_layout(runs.drop_first(), cats),
        }
    }
}

/// The key and the length of each run.
pub open spec fn run_heads(runs: Seq<Seq<Option<u32>>>) -> Seq<(Option<u32>, nat)> {
    runs.map_values(|r: Seq<Option<u32>>| (r[0], r.len()))
}

/// The categories as plain values.
pub open spec fn categories_view(cats: Seq<EventCategory>) -> Seq<CategoryView> {
    cats.map_values(|c: EventCategory| c.view_of())
}

/// The slots as plain values.
pub open spec fn slots_view(slots: Seq<CategorySlot>) -> Seq<SlotView> {
    slots.map_values(|s: CategorySlot| s.view_of())
}

/// The slot of a category that holds `count` maps.
fn slot(cat: EventCategory, count: usize) -> (s: CategorySlot)
    ensures
        s.view_of() == slot_of(cat.view_of(), count as nat),
{
    let banner_img_url = match cat.banner_img_url {
        Some(url) => url,
        None => String::new(),
    };
    CategorySlot { handle: cat.handle, name: cat.name, banner_img_url, map_count: count }
}

/// Index of the first category with the identifier `id`, as `Itertools::find_position`
/// gives it.
fn find_category(cats: &Vec<EventCategory>, id: u32) -> (r: Option<usize>)
    ensures
        r matches Some(i) ==> i < cats@.len() && category_index(categories_view(cats@), id) == Some(
            i as int,
        ),
        r is None ==> category_index(categories_view(cats@), id) is None,
{
    let mut i: usize = 0;
    while i < cats.len()
        invariant
            i <= cats@.len(),
            forall|j: int| 0 <= j < i ==> #[trigger] cats@[j].id != id,
        decreases cats@.len() - i,
    {
        if cats[i].id == id {
            proof {
                lemma_category_index(categories_view(cats@), id, i as nat);
            }
            return Some(i);
        }
        i = i + 1;
    }
    proof {
        lemma_category_index(categories_view(cats@), id, i as nat);
    }
    None
}

proof fn lemma_category_index(cats: Seq<CategoryView>, id: u32, i: nat)
    requires
        i <= cats.len(),
        forall|j: int| 0 <= j < i ==> #[trigger] cats[j].0 != id,
    ensures
        i < cats.len() && cats[i as int].0 == id ==> category_index(cats, id) == Some(i as int),
        i == cats.len() ==> category_index(cats, id) is None,
    decreases i,
{
    if i > 0 {
        assert forall|j: int| 0 <= j < i - 1 implies #[trigger] cats.drop_first()[j].0 != id by {
            assert(cats.drop_first()[j] == cats[j + 1]);
        }
        if i < cats.len() {
            assert(cats.drop_first()[i - 1] == cats[i as int]);
        }
        lemma_category_index(cats.drop_first(), id, (i - 1) as nat);
    }
}

/// Lays the categories out along the runs of maps: each run takes the first category with
/// its identifier out of the list (or an empty category), and the categories left follow
/// without maps.
pub fn layout_categories(runs: &Vec<Vec<Option<u32>>>, cats: Vec<EventCategory>) -> (slots: Vec<CategorySlot>)
    requires
        forall|i: int| 0 <= i < runs@.len() ==> #[trigger] runs@[i]@.len() > 0,
    ensures
        slots_view(slots@) == spec_layout(
            run_heads(runs@.map_values(|r: Vec<Option<u32>>| r@)),
            categories_view(cats@),
        ),
{
    let ghost all_runs = run_heads(runs@.map_values(|r: Vec<Option<u32>>| r@));
    let ghost init = categories_view(cats@);
    let mut cats = cats;
    let mut slots: Vec<CategorySlot> = Vec::new();
    let mut k: usize = 0;
    assert(all_runs.skip(0) =~= all_runs);
    assert(slots_view(slots@) =~= Seq::<SlotView>::empty());
    assert(Seq::<SlotView>::empty() + spec_layout(all_runs, init) =~= spec_layout(all_runs, init));
    while k < runs.len()
        invariant
            k <= runs@.len(),
            all_runs == run_heads(runs@.map_values(|r: Vec<Option<u32>>| r@)),
            forall|i: int| 0 <= i < runs@.len() ==> #[trigger] runs@[i]@.len() > 0,
            slots_view(slots@) + spec_layout(all_runs.skip(k as int), categories_view(cats@))
                == spec_layout(all_runs, init),
        decreases runs@.len() - k,
    {
        let run = &runs[k];
        let key = run[0];
        let count = run.len();
        let ghost cv = categories_view(cats@);
        let ghost before = slots_view(slots@);
        let ghost rest = all_runs.skip(k as int);
        assert(rest[0] == (key, count as nat));
        assert(rest.drop_first() =~= all_runs.skip(k + 1));
        let found = match key {
            Some(id) => find_category(&cats, id),
            None => None,
        };
        match found {
            Some(i) => {
                let cat = cats.swap_remove(i);
                assert(categories_view(cats@) =~= swap_remove(cv, i as int));
                assert(cat.view_of() == cv[i as int]);
                slots.push(slot(cat, count));
                assert(spec_layout(rest, cv) == seq![slot_of(cv[i as int], count as nat)]
                    + spec_layout(rest.drop_first(), swap_remove(cv, i as int)));
            },
            None => {
                slots.push(
                    CategorySlot {
                        handle: String::new(),
                        name: String::new(),
                        banner_img_url: String::new(),
                        map_count: count,
                    },
                );
            },
        }
        assert(slots_view(slots@) =~= before.push(slots@.last().view_of()));
        assert(spec_layout(rest, cv) == seq![slots@.last().view_of()] + spec_layout(
            all_runs.skip(k + 1),
            categories_view(cats@),
        ));
        assert(before + spec_layout(rest, cv) =~= slots_view(slots@) + spec_layout(
            all_runs.skip(k + 1),
            categories_view(cats@),
        ));
        k = k + 1;
    }
    assert(all_runs.skip(k as int) =~= Seq::<(Option<u32>, nat)>::empty());
    let ghost left = categories_view(cats@);
    let ghost done = slots_view(slots@);
    let mut j: usize = 0;
    let n = cats.len();
    while cats.len() > 0
        invariant
            j + cats@.len() == n,
            n == left.len(),
            categories_view(cats@) == left.skip(j as int),
            slots_view(slots@) == done + left.take(j as int).map_values(
                |c: CategoryView| slot_of(c, 0),
            ),
        decreases cats@.len(),
    {
        let ghost cv = categories_view(cats@);
        let ghost old_cats = cats@;
        assert(cv[0] == left[j as int]);
        let cat = cats.remove(0);
        assert(left[j as int] == cat.view_of());
        assert(cats@ =~= old_cats.skip(1));
        assert forall|t: int| 0 <= t < cats@.len() implies #[trigger] categories_view(cats@)[t]
            == left.skip(j + 1)[t] by {
            assert(cats@[t] == old_cats[t + 1]);
            assert(cv[t + 1] == left.skip(j as int)[t + 1]);
        }
        let ghost prev = slots_view(slots@);
        slots.push(slot(cat, 0));
        assert(categories_view(cats@) =~= left.skip(j + 1));
        assert(left.take(j + 1).map_values(|c: CategoryView| slot_of(c, 0)) =~= left.take(
            j as int,
        ).map_values(|c: CategoryView| slot_of(c, 0)).push(slot_of(left[j as int], 0)));
        assert(slots_view(slots@) =~= prev.push(slot_of(left[j as int], 0)));
        j = j + 1;
    }
    assert(left.take(n as int) =~= left);
    assert(spec_layout(Seq::<(Option<u32>, nat)>::empty(), left) == left.map_values(
        |c: CategoryView| slot_of(c, 0),
    ));
    slots
}

/// Lays out an edition whose maps, in order, belong to the given categories (a map
/// without one has `None`): the maps are grouped into runs of one category with
/// `Itertools::group_by`, and the categories laid out along those runs.
pub fn edition_layout(map_categories: &[Option<u32>], cats: Vec<EventCategory>) -> (slots: Vec<CategorySlot>)
    ensures
        slots_view(slots@) == spec_layout(
            run_heads(group_runs(map_categories@)),
            categories_view(cats@),
        ),
{
    let runs = category_runs(map_categories);
    let ghost rv = runs@.map_values(|r: Vec<Option<u32>>| r@);
    proof {
        lemma_group_runs(map_categories@);
        lemma_runs_unique(rv, group_runs(map_categories@), map_categories@);
    }
    assert forall|i: int| 0 <= i < runs@.len() implies #[trigger] runs@[i]@.len() > 0 by {
        assert(rv[i].len() > 0);
    }
    layout_categories(&runs, cats)
}

/// The categories under which a player's ranks in an edition are listed: the edition's
/// own, or a single category named `All maps` (identifier 0, no handle, no banner) when
/// the edition has none.
pub fn categories_or_all_maps(cats: Vec<EventCategory>) -> (r: Vec<EventCategory>)
    ensures
        cats@.len() > 0 ==> categories_view(r@) == categories_view(cats@),
        cats@.len() == 0 ==> categories_view(r@) == seq![
            (0u32, Seq::<char>::empty(), "All maps"@, None::<Seq<char>>),
        ],
{
    if cats.len() > 0 {
        cats
    } else {
        let mut all: Vec<EventCategory> = Vec::new();
        all.push(
            EventCategory {
                id: 0,
                handle: String::new(),
                name: crate::text::to_text("All maps"),
                banner_img_url: None,
            },
        );
        assert(categories_view(all@) =~= seq![
            (0u32, Seq::<char>::empty(), "All maps"@, None::<Seq<char>>),
        ]);
        all
    }
}

/// The number of maps that the slots hold.
pub open spec fn total_maps(slots: Seq<SlotView>) -> nat
    decreases slots.len(),
{
    if slots.len() == 0 {
        0
    } else {
        slots[0].3 + total_maps(slots.drop_first())
    }
}

/// The number of maps in the runs.
pub open spec fn total_runs(runs: Seq<(Option<u32>, nat)>) -> nat
    decreases runs.len(),
{
    if runs.len() == 0 {
        0
    } else {
        runs[0].1 + total_runs(runs.drop_first())
    }
}

proof fn lemma_left_categories_hold_nothing(cats: Seq<CategoryView>)
    ensures
        total_maps(cats.map_values(|c: CategoryView| slot_of(c, 0))) == 0,
    decreases cats.len(),
{
    if cats.len() > 0 {
        assert(cats.map_values(|c: CategoryView| slot_of(c, 0)).drop_first() =~= cats.drop_first().map_values(
            |c: CategoryView| slot_of(c, 0),
        ));
        lemma_left_categories_hold_nothing(cats.drop_first());
    }
}

proof fn lemma_layout_total(runs: Seq<(Option<u32>, nat)>, cats: Seq<CategoryView>)
    ensures
        total_maps(spec_layout(runs, cats)) == total_runs(runs),
    decreases runs.len(),
{
    if runs.len() == 0 {
        lemma_left_categories_hold_nothing(cats);
    } else {
        let (key, count) = runs[0];
        let found = match key {
            Some(id) => category_index(cats, id),
            None => None,
        };
        let layout = spec_layout(runs, cats);
        match found {
            Some(i) => {
                lemma_layout_total(runs.drop_first(), swap_remove(cats, i));
                assert(layout.drop_first() =~= spec_layout(runs.drop_first(), swap_remove(cats, i)));
            },
            None => {
                lemma_layout_total(runs.drop_first(), cats);
                assert(layout.drop_first() =~= spec_layout(runs.drop_first(), cats));
            },
        }
    }
}

proof fn lemma_runs_total(runs: Seq<Seq<Option<u32>>>)
    ensures
        total_runs(run_heads(runs)) == runs.flatten().len(),
    decreases runs.len(),
{
    if runs.len() > 0 {
        assert(run_heads(runs).drop_first() =~= run_heads(runs.drop_first()));
        lemma_runs_total(runs.drop_first());
    }
}

/// No map of an edition is lost or counted twice: the slots of its layout hold as many
/// maps as the edition has.
pub proof fn law_every_map_in_a_slot(map_categories: Seq<Option<u32>>, cats: Seq<CategoryView>)
    ensures
        total_maps(spec_layout(run_heads(group_runs(map_categories)), cats)) == map_categories.len(),
{
    lemma_group_runs(map_categories);
    lemma_layout_total(run_heads(group_runs(map_categories)), cats);
    lemma_runs_total(group_runs(map_categories));
}

/// No two categories share an identifier.
pub open spec fn ids_distinct(cats: Seq<CategoryView>) -> bool {
    forall|i: int, j: int| 0 <= i < j < cats.len() ==> #[trigger] cats[i].0 != #[trigger] cats[j].0
}

/// No category's maps are split over two runs.
pub open spec fn keys_distinct(runs: Seq<(Option<u32>, nat)>) -> bool {
    forall|i: int, j: int|
        0 <= i < j < runs.len() && (#[trigger] runs[i]).0 is Some ==> runs[i].0 != (#[trigger] runs[j]).0
}

/// Some run holds the maps of the category `id`.
pub open spec fn has_run(runs: Seq<(Option<u32>, nat)>, id: u32) -> bool {
    exists|i: int| 0 <= i < runs.len() && (#[trigger] runs[i]).0 == Some(id)
}

/// The category with the identifier `id`, if there is one.
pub open spec fn category_with(cats: Seq<CategoryView>, id: u32) -> Option<CategoryView> {
    match category_index(cats, id) {
        Some(i) => Some(cats[i]),
        None => None,
    }
}

/// The slot of a run of `count` maps of the category `key`: the category's, or an empty one.
pub open spec fn run_slot(key: Option<u32>, count: nat, cats: Seq<CategoryView>) -> SlotView {
    match key {
        Some(id) => match category_with(cats, id) {
            Some(c) => slot_of(c, count),
            None => (Seq::<char>::empty(), Seq::<char>::empty(), Seq::<char>::empty(), count),
        },
        None => (Seq::<char>::empty(), Seq::<char>::empty(), Seq::<char>::empty(), count),
    }
}

proof fn lemma_category_index_found(cats: Seq<CategoryView>, id: u32)
    ensures
        category_index(cats, id) matches Some(i) ==> 0 <= i < cats.len() && cats[i].0 == id,
        category_index(cats, id) is None ==> forall|j: int| 0 <= j < cats.len() ==> #[trigger] cats[j].0 != id,
    decreases cats.len(),
{
    if cats.len() > 0 && cats[0].0 != id {
        lemma_category_index_found(cats.drop_first(), id);
        assert forall|j: int| 0 <= j < cats.len() && category_index(cats, id) is None implies #[trigger] cats[j].0 != id by {
            if j > 0 {
                assert(cats[j] == cats.drop_first()[j - 1]);
            }
        }
        if let Some(i) = category_index(cats.drop_first(), id) {
            assert(cats[i + 1] == cats.drop_first()[i]);
        }
    }
}

/// With distinct identifiers, the category with an identifier is the one of the list that
/// has it.
proof fn lemma_category_with(cats: Seq<CategoryView>, id: u32)
    requires
        ids_distinct(cats),
    ensures
        forall|j: int| 0 <= j < cats.len() && cats[j].0 == id ==> category_with(cats, id) == Some(#[trigger] cats[j]),
        category_with(cats, id) is None <==> forall|j: int| 0 <= j < cats.len() ==> #[trigger] cats[j].0 != id,
{
    lemma_category_index_found(cats, id);
    assert forall|j: int| 0 <= j < cats.len() && cats[j].0 == id implies category_with(cats, id) == Some(#[trigger] cats[j]) by {
        if let Some(i) = category_index(cats, id) {
            if i != j {
                if i < j {
                    assert(cats[i].0 != cats[j].0);
                } else {
                    assert(cats[j].0 != cats[i].0);
                }
            }
        }
    }
}

/// What stays after a swap-removal: every other category, each once.
proof fn lemma_swap_remove(cats: Seq<CategoryView>, i: int)
    requires
        ids_distinct(cats),
        0 <= i < cats.len(),
    ensures
        ids_distinct(swap_remove(cats, i)),
        swap_remove(cats, i).len() == cats.len() - 1,
        forall|j: int| 0 <= j < swap_remove(cats, i).len() ==> #[trigger] swap_remove(cats, i)[j] == (if j == i {
            cats[cats.len() - 1]
        } else {
            cats[j]
        }),
        forall|c: CategoryView| swap_remove(cats, i).contains(c) <==> (cats.contains(c) && c != cats[i]),
{
    let r = swap_remove(cats, i);
    let n = cats.len() - 1;
    assert forall|j: int| 0 <= j < r.len() implies #[trigger] r[j] == (if j == i { cats[n] } else { cats[j] }) by {}
    assert forall|a: int, b: int| 0 <= a < b < r.len() implies #[trigger] r[a].0 != #[trigger] r[b].0 by {
        let a2 = if a == i { n } else { a };
        let b2 = if b == i { n } else { b };
        assert(r[a] == cats[a2] && r[b] == cats[b2]);
        if a2 < b2 {
            assert(cats[a2].0 != cats[b2].0);
        } else {
            assert(cats[b2].0 != cats[a2].0);
        }
    }
    assert forall|c: CategoryView| r.contains(c) <==> (cats.contains(c) && c != cats[i]) by {
        if r.contains(c) {
            let j = choose|j: int| 0 <= j < r.len() && r[j] == c;
            let j2 = if j == i { n } else { j };
            assert(cats[j2] == c);
            if j2 != i {
                if j2 < i {
                    assert(cats[j2].0 != cats[i].0);
                } else {
                    assert(cats[i].0 != cats[j2].0);
                }
            }
        }
        if cats.contains(c) && c != cats[i] {
            let j = choose|j: int| 0 <= j < cats.len() && cats[j] == c;
            if j == n {
                assert(r[i] == c);
            } else {
                assert(r[j] == c);
            }
        }
    }
}

/// The slot of a run does not change when a category of another identifier is taken out.
proof fn lemma_run_slot_after_removal(key: Option<u32>, count: nat, cats: Seq<CategoryView>, i: int)
    requires
        ids_distinct(cats),
        0 <= i < cats.len(),
        key != Some(cats[i].0),
    ensures
        run_slot(key, count, swap_remove(cats, i)) == run_slot(key, count, cats),
{
    if let Some(id) = key {
        lemma_swap_remove(cats, i);
        let r = swap_remove(cats, i);
        lemma_category_with(cats, id);
        lemma_category_with(r, id);
        let n = cats.len() - 1;
        if exists|j: int| 0 <= j < cats.len() && cats[j].0 == id {
            let j = choose|j: int| 0 <= j < cats.len() && cats[j].0 == id;
            assert(j != i);
            let j2 = if j == n { i } else { j };
            assert(r[j2] == cats[j]);
        } else {
            assert forall|j: int| 0 <= j < r.len() implies #[trigger] r[j].0 != id by {
                let j2 = if j == i { n } else { j };
                assert(r[j] == cats[j2]);
            }
        }
    }
}

/// Where the categories go in a layout: each run's slot is that of its category, and the
/// categories without maps follow, each once.
proof fn lemma_layout_places(runs: Seq<(Option<u32>, nat)>, cats: Seq<CategoryView>) -> (left: Seq<CategoryView>)
    requires
        ids_distinct(cats),
        keys_distinct(runs),
    ensures
        spec_layout(runs, cats).len() == runs.len() + left.len(),
        forall|k: int| 0 <= k < runs.len() ==> #[trigger] spec_layout(runs, cats)[k] == run_slot(runs[k].0, runs[k].1, cats),
        spec_layout(runs, cats).skip(runs.len() as int) == left.map_values(|c: CategoryView| slot_of(c, 0)),
        ids_distinct(left),
        forall|c: CategoryView| left.contains(c) <==> (cats.contains(c) && !has_run(runs, c.0)),
    decreases runs.len(),
{
    let layout = spec_layout(runs, cats);
    if runs.len() == 0 {
        assert(layout.skip(0) =~= layout);
        cats
    } else {
        let (key, count) = runs[0];
        let rest = runs.drop_first();
        assert forall|a: int, b: int| 0 <= a < b < rest.len() && (#[trigger] rest[a]).0 is Some implies rest[a].0 != (#[trigger] rest[b]).0 by {
            assert(rest[a] == runs[a + 1] && rest[b] == runs[b + 1]);
        }
        assert forall|x: u32| has_run(runs, x) <==> (key == Some(x) || has_run(rest, x)) by {
            if has_run(runs, x) {
                let i = choose|i: int| 0 <= i < runs.len() && (#[trigger] runs[i]).0 == Some(x);
                if i > 0 {
                    assert(rest[i - 1] == runs[i]);
                }
            }
            if has_run(rest, x) {
                let i = choose|i: int| 0 <= i < rest.len() && (#[trigger] rest[i]).0 == Some(x);
                assert(runs[i + 1] == rest[i]);
            }
            if key == Some(x) {
                assert(runs[0].0 == Some(x));
            }
        }
        let found = match key {
            Some(id) => category_index(cats, id),
            None => None,
        };
        if let Some(id) = key {
            lemma_category_index_found(cats, id);
            lemma_category_with(cats, id);
        }
        match found {
            Some(i) => {
                let id = key->Some_0;
                let after = swap_remove(cats, i);
                lemma_swap_remove(cats, i);
                let left = lemma_layout_places(rest, after);
                let tail = spec_layout(rest, after);
                assert(layout == seq![slot_of(cats[i], count)] + tail);
                assert forall|k: int| 0 <= k < runs.len() implies #[trigger] layout[k] == run_slot(runs[k].0, runs[k].1, cats) by {
                    if k > 0 {
                        assert(runs[k] == rest[k - 1]);
                        assert(runs[0].0 is Some && runs[0].0 != runs[k].0);
                        lemma_run_slot_after_removal(runs[k].0, runs[k].1, cats, i);
                        assert(layout[k] == tail[k - 1]);
                    }
                }
                assert(layout.skip(runs.len() as int) =~= tail.skip(rest.len() as int));
                assert forall|c: CategoryView| left.contains(c) <==> (cats.contains(c) && !has_run(runs, c.0)) by {
                    if cats.contains(c) {
                        let j = choose|j: int| 0 <= j < cats.len() && cats[j] == c;
                        if c.0 == id {
                            assert(category_with(cats, id) == Some(cats[j]));
                        } else {
                            assert(c != cats[i]);
                        }
                    }
                }
                left
            },
            None => {
                let left = lemma_layout_places(rest, cats);
                let tail = spec_layout(rest, cats);
                let empty = (Seq::<char>::empty(), Seq::<char>::empty(), Seq::<char>::empty(), count);
                assert(layout == seq![empty] + tail);
                assert forall|k: int| 0 <= k < runs.len() implies #[trigger] layout[k] == run_slot(runs[k].0, runs[k].1, cats) by {
                    if k > 0 {
                        assert(runs[k] == rest[k - 1]);
                        assert(layout[k] == tail[k - 1]);
                    }
                }
                assert(layout.skip(runs.len() as int) =~= tail.skip(rest.len() as int));
                assert forall|c: CategoryView| left.contains(c) <==> (cats.contains(c) && !has_run(runs, c.0)) by {
                    if cats.contains(c) && key == Some(c.0) {
                        let j = choose|j: int| 0 <= j < cats.len() && cats[j] == c;
                        assert(cats[j].0 == c.0);
                    }
                }
                left
            },
        }
    }
}

/// Where the categories of an edition go, when no two categories share an identifier and
/// each category's maps come in one run: each run of maps stands under its own category (an
/// empty one when the edition has no such category), and the categories without maps
/// follow, each exactly once.
pub proof fn law_categories_in_their_slots(runs: Seq<(Option<u32>, nat)>, cats: Seq<CategoryView>)
    requires
        ids_distinct(cats),
        keys_distinct(runs),
    ensures
        forall|k: int| 0 <= k < runs.len() ==> #[trigger] spec_layout(runs, cats)[k] == run_slot(runs[k].0, runs[k].1, cats),
        exists|left: Seq<CategoryView>|
            spec_layout(runs, cats).len() == runs.len() + left.len()
            && #[trigger] spec_layout(runs, cats).skip(runs.len() as int) == left.map_values(|c: CategoryView| slot_of(c, 0))
            && ids_distinct(left)
            && forall|c: CategoryView| left.contains(c) <==> (cats.contains(c) && !has_run(runs, c.0)),
{
    let left = lemma_layout_places(runs, cats);
    assert(spec_layout(runs, cats).skip(runs.len() as int) == left.map_values(|c: CategoryView| slot_of(c, 0)));
}

/// Which category stands behind each slot of a layout (none for an empty slot).
pub open spec fn slot_sources(runs: Seq<(Option<u32>, nat)>, cats: Seq<CategoryView>) -> Seq<Option<CategoryView>>
    decreases runs.len(),
{
    if runs.len() == 0 {
        cats.map_values(|c: CategoryView| Some(c))
    } else {
        let (key, count) = runs[0];
        let found = match key {
            Some(id) => category_index(cats, id),
            None => None,
        };
        match found {
            Some(i) => seq![Some(cats[i])] + slot_sources(runs.drop_first(), swap_remove(cats, i)),
            None => seq![None::<CategoryView>] + slot_sources(runs.drop_first(), cats),
        }
    }
}

/// The categories among the sources, in order.
pub open spec fn present(sources: Seq<Option<CategoryView>>) -> Seq<CategoryView>
    decreases sources.len(),
{
    if sources.len() == 0 {
        seq![]
    } else {
        match sources[0] {
            Some(c) => seq![c] + present(sources.drop_first()),
            None => present(sources.drop_first()),
        }
    }
}

/// The slot of a source holding `count` maps.
pub open spec fn source_slot(source: Option<CategoryView>, count: nat) -> SlotView {
    match source {
        Some(c) => slot_of(c, count),
        None => (Seq::<char>::empty(), Seq::<char>::empty(), Seq::<char>::empty(), count),
    }
}

proof fn lemma_present_all(cats: Seq<CategoryView>)
    ensures
        present(cats.map_values(|c: CategoryView| Some(c))) == cats,
    decreases cats.len(),
{
    if cats.len() > 0 {
        let m = cats.map_values(|c: CategoryView| Some(c));
        assert(m.drop_first() =~= cats.drop_first().map_values(|c: CategoryView| Some(c)));
        lemma_present_all(cats.drop_first());
        assert(cats =~= seq![cats[0]] + cats.drop_first());
    }
}

proof fn lemma_swap_remove_multiset(cats: Seq<CategoryView>, i: int)
    requires
        0 <= i < cats.len(),
    ensures
        swap_remove(cats, i).to_multiset().insert(cats[i]) == cats.to_multiset(),
{
    broadcast use vstd::seq_lib::group_to_multiset_ensures;
    broadcast use vstd::multiset::group_multiset_axioms;

    let last = cats.last();
    let u = cats.update(i, last);
    vstd::seq_lib::to_multiset_update(cats, i, last);
    assert(u =~= u.drop_last().push(u.last()));
    vstd::seq_lib::to_multiset_build(u.drop_last(), u.last());
    assert(u.last() == last);
    assert(swap_remove(cats, i) == u.drop_last());
    let m = cats.to_multiset();
    let a = swap_remove(cats, i).to_multiset();
    assert(a.insert(last) == m.insert(last).remove(cats[i]));
    assert(cats.contains(cats[i]));
    vstd::seq_lib::to_multiset_contains(cats, cats[i]);
    assert(m.count(cats[i]) > 0);
    assert forall|x: CategoryView| #[trigger] a.insert(cats[i]).count(x) == m.count(x) by {
        assert(a.insert(last).count(x) == m.insert(last).remove(cats[i]).count(x));
    }
    assert(a.insert(cats[i]) =~= m);
}

proof fn lemma_multiset_prepend(c: CategoryView, s: Seq<CategoryView>)
    ensures
        (seq![c] + s).to_multiset() == s.to_multiset().insert(c),
{
    broadcast use vstd::seq_lib::group_to_multiset_ensures;

    vstd::seq_lib::to_multiset_insert(s, 0, c);
    assert(s.insert(0, c) =~= seq![c] + s);
}

proof fn lemma_sources(runs: Seq<(Option<u32>, nat)>, cats: Seq<CategoryView>)
    ensures
        slot_sources(runs, cats).len() == spec_layout(runs, cats).len(),
        forall|k: int|
            0 <= k < spec_layout(runs, cats).len() ==> #[trigger] spec_layout(runs, cats)[k]
                == source_slot(slot_sources(runs, cats)[k], spec_layout(runs, cats)[k].3),
        present(slot_sources(runs, cats)).to_multiset() == cats.to_multiset(),
    decreases runs.len(),
{
    let layout = spec_layout(runs, cats);
    let sources = slot_sources(runs, cats);
    if runs.len() == 0 {
        lemma_present_all(cats);
    } else {
        let (key, count) = runs[0];
        let rest = runs.drop_first();
        let found = match key {
            Some(id) => category_index(cats, id),
            None => None,
        };
        if let Some(id) = key {
            lemma_category_index_found(cats, id);
        }
        match found {
            Some(i) => {
                let after = swap_remove(cats, i);
                lemma_sources(rest, after);
                let tail = spec_layout(rest, after);
                let ts = slot_sources(rest, after);
                assert(layout == seq![slot_of(cats[i], count)] + tail);
                assert(sources == seq![Some(cats[i])] + ts);
                assert forall|k: int| 0 <= k < layout.len() implies #[trigger] layout[k]
                    == source_slot(sources[k], layout[k].3) by {
                    if k > 0 {
                        assert(layout[k] == tail[k - 1] && sources[k] == ts[k - 1]);
                    }
                }
                assert(sources.drop_first() =~= ts);
                assert(present(sources) == seq![cats[i]] + present(ts));
                lemma_multiset_prepend(cats[i], present(ts));
                lemma_swap_remove_multiset(cats, i);
            },
            None => {
                lemma_sources(rest, cats);
                let tail = spec_layout(rest, cats);
                let ts = slot_sources(rest, cats);
                let empty = (Seq::<char>::empty(), Seq::<char>::empty(), Seq::<char>::empty(), count);
                assert(layout == seq![empty] + tail);
                assert(sources == seq![None::<CategoryView>] + ts);
                assert forall|k: int| 0 <= k < layout.len() implies #[trigger] layout[k]
                    == source_slot(sources[k], layout[k].3) by {
                    if k > 0 {
                        assert(layout[k] == tail[k - 1] && sources[k] == ts[k - 1]);
                    }
                }
                assert(sources.drop_first() =~= ts);
            },
        }
    }
}

/// Every category of an edition is shown exactly once, whatever the runs of maps: behind
/// each slot of the layout stands one category or none, the slot shows that category (or
/// nothing), and the categories standing behind the slots are those of the edition, each as
/// many times as the edition lists it.
pub proof fn law_each_category_once(runs: Seq<(Option<u32>, nat)>, cats: Seq<CategoryView>)
    ensures
        slot_sources(runs, cats).len() == spec_layout(runs, cats).len(),
        forall|k: int|
            0 <= k < spec_layout(runs, cats).len() ==> #[trigger] spec_layout(runs, cats)[k]
                == source_slot(slot_sources(runs, cats)[k], spec_layout(runs, cats)[k].3),
        present(slot_sources(runs, cats)).to_multiset() == cats.to_multiset(),
{
    lemma_sources(runs, cats);
}

} // verus!

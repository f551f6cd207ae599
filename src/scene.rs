use vstd::prelude::*;

use crate::utils::ppm::{pixel_lines, ppm_header, row_major, PpmView, Rgb, PPM};
use crate::utils::text::push_char;

verus! {

/// How many of the slots hold a row.
pub open spec fn count_present<T>(rows: Seq<Option<T>>) -> nat
    decreases rows.len(),
{
    if rows.len() == 0 {
        0
    } else {
        count_present(rows.drop_last()) + if rows.last() is Some {
            1nat
        } else {
            0nat
        }
    }
}

/// The progress notification due once `collected` of `height` rows are in:
/// one every `height / 10` rows, giving the share done in percent. None is due
/// when the image has fewer than ten rows.
pub open spec fn progress_due(collected: nat, height: nat) -> Option<nat> {
    let milestone = height / 10;
    if milestone > 0 && collected % milestone == 0 {
        Some(collected / milestone * 10)
    } else {
        None
    }
}

/// The slots after the given rows arrived, one after another, each placed at
/// its own index.
pub open spec fn place_all<T>(slots: Seq<Option<T>>, arrivals: Seq<(int, T)>) -> Seq<Option<T>>
    decreases arrivals.len(),
{
    if arrivals.len() == 0 {
        slots
    } else {
        place_all(slots, arrivals.drop_last()).update(
            arrivals.last().0,
            Some(arrivals.last().1),
        )
    }
}

/// The image rows from top to bottom: the slot of the last index comes first.
pub open spec fn top_down<T>(slots: Seq<Option<T>>) -> Seq<T> {
    Seq::new(slots.len(), |k: int| slots[slots.len() - 1 - k]->0)
}

proof fn lemma_count_bounds<T>(rows: Seq<Option<T>>)
    ensures
        count_present(rows) <= rows.len(),
        count_present(rows) == rows.len() <==> forall|i: int| 0 <= i < rows.len() ==> rows[i] is Some,
    decreases rows.len(),
{
    if rows.len() > 0 {
        lemma_count_bounds(rows.drop_last());
        if count_present(rows) == rows.len() {
            assert forall|i: int| 0 <= i < rows.len() implies rows[i] is Some by {
                if i < rows.len() - 1 {
                    assert(rows.drop_last()[i] == rows[i]);
                }
            }
        }
        if forall|i: int| 0 <= i < rows.len() ==> rows[i] is Some {
            assert forall|i: int| 0 <= i < rows.drop_last().len() implies rows.drop_last()[i] is Some by {
                assert(rows[i] is Some);
            }
        }
    }
}

proof fn lemma_count_update<T>(rows: Seq<Option<T>>, y: int, row: T)
    requires
        0 <= y < rows.len(),
    ensures
        count_present(rows.update(y, Some(row))) == count_present(rows) + if rows[y] is None {
            1nat
        } else {
            0nat
        },
    decreases rows.len(),
{
    let after = rows.update(y, Some(row));
    if y == rows.len() - 1 {
        assert(after.drop_last() =~= rows.drop_last());
    } else {
        lemma_count_update(rows.drop_last(), y, row);
        assert(after.drop_last() =~= rows.drop_last().update(y, Some(row)));
    }
}

/// Rows placed by their own index end up at that index, whatever the order in
/// which they arrived: the slot of every index that arrived holds the row
/// that arrived for it.
pub proof fn lemma_rows_placed_by_index<T>(slots: Seq<Option<T>>, arrivals: Seq<(int, T)>)
    requires
        forall|k: int| 0 <= k < arrivals.len() ==> 0 <= #[trigger] arrivals[k].0 < slots.len(),
        forall|k: int, l: int|
            0 <= k < l < arrivals.len() ==> #[trigger] arrivals[k].0 != #[trigger] arrivals[l].0,
    ensures
        place_all(slots, arrivals).len() == slots.len(),
        forall|k: int|
            0 <= k < arrivals.len() ==> place_all(slots, arrivals)[#[trigger] arrivals[k].0] == Some(
                arrivals[k].1,
            ),
        forall|y: int|
            0 <= y < slots.len() && (forall|k: int| 0 <= k < arrivals.len() ==> arrivals[k].0 != y)
                ==> place_all(slots, arrivals)[y] == slots[y],
    decreases arrivals.len(),
{
    if arrivals.len() > 0 {
        let init = arrivals.drop_last();
        lemma_rows_placed_by_index(slots, init);
        let n = arrivals.len() - 1;
        assert forall|k: int| 0 <= k < arrivals.len() implies place_all(
            slots,
            arrivals,
        )[#[trigger] arrivals[k].0] == Some(arrivals[k].1) by {
            if k < n {
                assert(init[k] == arrivals[k]);
                assert(arrivals[k].0 != arrivals[n].0);
            }
        }
        assert forall|y: int|
            0 <= y < slots.len() && (forall|k: int| 0 <= k < arrivals.len() ==> arrivals[k].0 != y)
            implies place_all(slots, arrivals)[y] == slots[y] by {
            assert(arrivals[n].0 != y);
            assert forall|k: int| 0 <= k < init.len() implies init[k].0 != y by {
                assert(init[k] == arrivals[k]);
            }
        }
    }
}

/// The progress notification due once `collected` of `height` rows are in.
pub fn progress_percent(collected: usize, height: usize) -> (r: Option<usize>)
    requires
        collected <= height,
    ensures
        r matches Some(p) ==> progress_due(collected as nat, height as nat) == Some(p as nat),
        r is None ==> progress_due(collected as nat, height as nat) is None,
{
    let milestone = height / 10;
    if milestone > 0 && collected % milestone == 0 {
        let steps = collected / milestone;
        assert(steps < 20) by (nonlinear_arith)
            requires
                steps == collected / milestone,
                milestone == height / 10,
                milestone > 0,
                collected <= height,
        ;
        Some(steps * 10)
    } else {
        None
    }
}

/// Collects the rows of an image as they are finished, in any order, each
/// placed by its own index. Index 0 is the bottom row.
pub struct RowCollector<T> {
    rows: Vec<Option<Vec<T>>>,
    collected: usize,
}

impl<T> View for RowCollector<T> {
    type V = Seq<Option<Vec<T>>>;

    closed spec fn view(&self) -> Seq<Option<Vec<T>>> {
        self.rows@
    }
}

impl<T> RowCollector<T> {
    #[verifier::type_invariant]
    spec fn counted(&self) -> bool {
        self.collected == count_present(self.rows@)
    }

    /// A collector for an image of `height` rows, none of them in yet.
    pub fn new(height: usize) -> (r: RowCollector<T>)
        ensures
            r@.len() == height,
            forall|y: int| 0 <= y < height ==> r@[y] is None,
    {
        let mut rows: Vec<Option<Vec<T>>> = Vec::new();
        let mut i: usize = 0;
        while i < height
            invariant
                i <= height,
                rows@.len() == i,
                forall|y: int| 0 <= y < i ==> rows@[y] is None,
                count_present(rows@) == 0,
            decreases height - i,
        {
            let ghost before = rows@;
            rows.push(None);
            assert(rows@.drop_last() =~= before);
            i = i + 1;
        }
        RowCollector { rows, collected: 0 }
    }

    /// The number of rows of the image.
    pub fn height(&self) -> (r: usize)
        ensures
            r == self@.len(),
    {
        self.rows.len()
    }

    /// The number of rows in so far.
    pub fn collected(&self) -> (r: usize)
        ensures
            r == count_present(self@),
    {
        proof {
            use_type_invariant(self);
        }
        self.collected
    }

    /// Whether the row of index `y` is in.
    pub fn has_row(&self, y: usize) -> (r: bool)
        requires
            y < self@.len(),
        ensures
            r == self@[y as int] is Some,
    {
        self.rows[y].is_some()
    }

    /// Whether every row is in.
    pub fn is_complete(&self) -> (r: bool)
        ensures
            r == forall|y: int| 0 <= y < self@.len() ==> self@[y] is Some,
    {
        proof {
            use_type_invariant(self);
            lemma_count_bounds(self.rows@);
        }
        self.collected == self.rows.len()
    }

    /// Places the finished row of index `y`, and returns the progress
    /// notification that is then due.
    pub fn receive(&mut self, y: usize, row: Vec<T>) -> (r: Option<usize>)
        requires
            y < old(self)@.len(),
        ensures
            final(self)@ == old(self)@.update(y as int, Some(row)),
            r matches Some(p) ==> progress_due(count_present(final(self)@), final(self)@.len())
                == Some(p as nat),
            r is None ==> progress_due(count_present(final(self)@), final(self)@.len()) is None,
    {
        let mut taken = RowCollector { rows: Vec::new(), collected: 0 };
        std::mem::swap(self, &mut taken);
        proof {
            use_type_invariant(&taken);
            lemma_count_bounds(taken.rows@);
            lemma_count_update(taken.rows@, y as int, row);
            lemma_count_bounds(taken.rows@.update(y as int, Some(row)));
        }
        let RowCollector { mut rows, mut collected } = taken;
        let height = rows.len();
        if rows[y].is_none() {
            assert(rows@[y as int] is None);
            collected = collected + 1;
        }
        rows[y] = Some(row);
        let r = progress_percent(collected, height);
        *self = RowCollector { rows, collected };
        r
    }

    /// The finished image, top row first: the row of the last index comes
    /// first and the row of index 0 last.
    pub fn into_image(self) -> (r: Vec<Vec<T>>)
        requires
            forall|y: int| 0 <= y < self@.len() ==> self@[y] is Some,
        ensures
            r@ == top_down(self@),
    {
        let ghost slots = self@;
        let RowCollector { mut rows, collected: _ } = self;
        let mut image: Vec<Vec<T>> = Vec::new();
        while rows.len() > 0
            invariant
                rows@ == slots.take(rows@.len() as int),
                rows@.len() + image@.len() == slots.len(),
                forall|y: int| 0 <= y < slots.len() ==> slots[y] is Some,
                forall|k: int| 0 <= k < image@.len() ==> image@[k] == top_down(slots)[k],
            decreases rows@.len(),
        {
            let ghost before = rows@;
            let last = rows.pop();
            proof {
                assert(rows@ =~= slots.take(rows@.len() as int));
                assert(before[before.len() - 1] == slots[rows@.len() as int]);
            }
            match last {
                Some(Some(row)) => {
                    image.push(row);
                },
                _ => {
                    proof {
                        assert(slots[rows@.len() as int] is Some);
                    }
                },
            }
        }
        assert(image@ =~= top_down(slots));
        image
    }
}

/// The name of the image file of a scene: the scene's name with `.ppm` added.
pub fn output_file_name(stem: &String) -> (r: String)
    ensures
        r@ == stem@ + seq!['.', 'p', 'p', 'm'],
{
    let mut name = stem.clone();
    push_char(&mut name, '.');
    push_char(&mut name, 'p');
    push_char(&mut name, 'p');
    push_char(&mut name, 'm');
    assert(name@ =~= stem@ + seq!['.', 'p', 'p', 'm']);
    name
}

/// The image file of a rendered scene: the header of a `width` by `height`
/// image, then the pixels of `rows` (top row first) row after row.
pub fn encode_image(stem: &String, width: u32, height: u32, rows: &Vec<Vec<Rgb>>) -> (r: PPM)
    ensures
        r@ == (PpmView {
            name: stem@ + seq!['.', 'p', 'p', 'm'],
            width: width as nat,
            height: height as nat,
            text: ppm_header(width as nat, height as nat) + pixel_lines(
                row_major(rows@.map_values(|row: Vec<Rgb>| row@)),
            ),
        }),
{
    let mut file = PPM::from(output_file_name(stem), width, height);
    file.push_rows(rows);
    file
}

} // verus!

//! The plot batching engine.
//!
//! Samples arrive one at a time under a pair of names, the series and the
//! subseries. Each pair owns a buffer whose shape its first sample fixes.
//! A buffer is handed out as one batch once it holds enough samples or has
//! waited long enough.
//!
//! Times are counts of nanoseconds on a clock that never runs backwards.
//! A sample's value is carried as the 64-bit pattern of each of its
//! components, which this engine stores and hands on without reading it.

use vstd::prelude::*;
use vstd::slice::slice_to_vec;

verus! {

/// Number of samples at which a buffer is due.
pub const BUFFER_SIZE: usize = 50;

/// Nanoseconds after which a buffer that holds anything is due.
pub const BUFFER_TIMEOUT: u64 = 100_000_000;

/// The time from `earlier` to `later`, and zero if `later` is not later.
pub open spec fn elapsed(later: u64, earlier: u64) -> u64 {
    if later >= earlier {
        (later - earlier) as u64
    } else {
        0
    }
}

/// Computes the time from `earlier` to `later`.
pub fn duration_since(later: u64, earlier: u64) -> (d: u64)
    ensures
        d == elapsed(later, earlier),
{
    if later >= earlier {
        later - earlier
    } else {
        0
    }
}

/// The shape of a sample: how many components it has.
#[derive(Debug, Clone, Copy, PartialEq, Eq, Structural)]
pub enum Shape {
    Scalar,
    Vec2,
    Vec3,
}

/// One sample: the instant at which it was taken, and its value.
#[derive(Debug, Clone, Copy, PartialEq, Eq)]
pub enum Point {
    Scalar((u64, u64)),
    Vec2((u64, [u64; 2])),
    Vec3((u64, [u64; 3])),
}

impl Point {
    /// The shape of this sample.
    pub open spec fn spec_shape(self) -> Shape {
        match self {
            Point::Scalar(_) => Shape::Scalar,
            Point::Vec2(_) => Shape::Vec2,
            Point::Vec3(_) => Shape::Vec3,
        }
    }

    /// The instant at which this sample was taken.
    pub open spec fn spec_instant(self) -> u64 {
        match self {
            Point::Scalar(p) => p.0,
            Point::Vec2(p) => p.0,
            Point::Vec3(p) => p.0,
        }
    }

    /// The shape of this sample.
    #[verifier::when_used_as_spec(spec_shape)]
    pub fn shape(self) -> (s: Shape)
        ensures
            s == self.spec_shape(),
    {
        match self {
            Point::Scalar(_) => Shape::Scalar,
            Point::Vec2(_) => Shape::Vec2,
            Point::Vec3(_) => Shape::Vec3,
        }
    }

    /// The instant at which this sample was taken.
    #[verifier::when_used_as_spec(spec_instant)]
    pub fn instant(self) -> (t: u64)
        ensures
            t == self.spec_instant(),
    {
        match self {
            Point::Scalar(p) => p.0,
            Point::Vec2(p) => p.0,
            Point::Vec3(p) => p.0,
        }
    }
}

/// The samples of one subplot that wait to be sent: pairs of the time since
/// the subplot began and the value, all of one shape.
#[derive(Debug, PartialEq, Eq)]
pub enum Buffer {
    Scalar(Vec<(u64, u64)>),
    Vec2(Vec<(u64, [u64; 2])>),
    Vec3(Vec<(u64, [u64; 3])>),
}

/// What a [`Buffer`] holds, as sequences.
pub ghost enum BufferView {
    Scalar(Seq<(u64, u64)>),
    Vec2(Seq<(u64, [u64; 2])>),
    Vec3(Seq<(u64, [u64; 3])>),
}

impl BufferView {
    /// The shape of the samples.
    pub open spec fn shape(self) -> Shape {
        match self {
            BufferView::Scalar(_) => Shape::Scalar,
            BufferView::Vec2(_) => Shape::Vec2,
            BufferView::Vec3(_) => Shape::Vec3,
        }
    }

    /// The number of samples.
    pub open spec fn len(self) -> nat {
        match self {
            BufferView::Scalar(b) => b.len(),
            BufferView::Vec2(b) => b.len(),
            BufferView::Vec3(b) => b.len(),
        }
    }

    /// The empty buffer of the same shape.
    pub open spec fn cleared(self) -> BufferView {
        match self {
            BufferView::Scalar(_) => BufferView::Scalar(Seq::empty()),
            BufferView::Vec2(_) => BufferView::Vec2(Seq::empty()),
            BufferView::Vec3(_) => BufferView::Vec3(Seq::empty()),
        }
    }

    /// The buffer that a first sample starts: that sample alone, at time zero.
    pub open spec fn starting_with(point: Point) -> BufferView {
        match point {
            Point::Scalar(p) => BufferView::Scalar(seq![(0u64, p.1)]),
            Point::Vec2(p) => BufferView::Vec2(seq![(0u64, p.1)]),
            Point::Vec3(p) => BufferView::Vec3(seq![(0u64, p.1)]),
        }
    }

    /// This buffer with `point` at its end, timed from `start`; unchanged
    /// if the sample has another shape.
    pub open spec fn with_point(self, point: Point, start: u64) -> BufferView {
        match (self, point) {
            (BufferView::Scalar(b), Point::Scalar(p)) => BufferView::Scalar(
                b.push((elapsed(p.0, start), p.1)),
            ),
            (BufferView::Vec2(b), Point::Vec2(p)) => BufferView::Vec2(
                b.push((elapsed(p.0, start), p.1)),
            ),
            (BufferView::Vec3(b), Point::Vec3(p)) => BufferView::Vec3(
                b.push((elapsed(p.0, start), p.1)),
            ),
            _ => self,
        }
    }
}

impl View for Buffer {
    type V = BufferView;

    open spec fn view(&self) -> BufferView {
        match self {
            Buffer::Scalar(b) => BufferView::Scalar(b@),
            Buffer::Vec2(b) => BufferView::Vec2(b@),
            Buffer::Vec3(b) => BufferView::Vec3(b@),
        }
    }
}

impl Clone for Buffer {
    fn clone(&self) -> (r: Buffer)
        ensures
            r@ == self@,
    {
        match self {
            Buffer::Scalar(b) => Buffer::Scalar(slice_to_vec(b.as_slice())),
            Buffer::Vec2(b) => Buffer::Vec2(slice_to_vec(b.as_slice())),
            Buffer::Vec3(b) => Buffer::Vec3(slice_to_vec(b.as_slice())),
        }
    }
}

impl Buffer {
    /// The buffer that a first sample starts.
    pub fn from(point: Point) -> (r: Buffer)
        ensures
            r@ == BufferView::starting_with(point),
    {
        match point {
            Point::Scalar(s) => {
                let mut b: Vec<(u64, u64)> = Vec::new();
                b.push((0, s.1));
                Buffer::Scalar(b)
            },
            Point::Vec2(s) => {
                let mut b: Vec<(u64, [u64; 2])> = Vec::new();
                b.push((0, s.1));
                Buffer::Vec2(b)
            },
            Point::Vec3(s) => {
                let mut b: Vec<(u64, [u64; 3])> = Vec::new();
                b.push((0, s.1));
                Buffer::Vec3(b)
            },
        }
    }

    /// The shape of the samples.
    pub fn shape(&self) -> (s: Shape)
        ensures
            s == self@.shape(),
    {
        match self {
            Buffer::Scalar(_) => Shape::Scalar,
            Buffer::Vec2(_) => Shape::Vec2,
            Buffer::Vec3(_) => Shape::Vec3,
        }
    }

    /// The number of samples.
    pub fn len(&self) -> (n: usize)
        ensures
            n == self@.len(),
    {
        match self {
            Buffer::Scalar(b) => b.len(),
            Buffer::Vec2(b) => b.len(),
            Buffer::Vec3(b) => b.len(),
        }
    }

    /// Whether there is no sample.
    pub fn is_empty(&self) -> (e: bool)
        ensures
            e == (self@.len() == 0),
    {
        match self {
            Buffer::Scalar(b) => b.len() == 0,
            Buffer::Vec2(b) => b.len() == 0,
            Buffer::Vec3(b) => b.len() == 0,
        }
    }

    /// Hands out the samples and leaves the buffer empty, in its shape.
    pub fn take(&mut self) -> (r: Buffer)
        ensures
            r@ == old(self)@,
            final(self)@ == old(self)@.cleared(),
    {
        match self {
            Buffer::Scalar(s) => {
                let mut out: Vec<(u64, u64)> = Vec::new();
                core::mem::swap(s, &mut out);
                Buffer::Scalar(out)
            },
            Buffer::Vec2(s) => {
                let mut out: Vec<(u64, [u64; 2])> = Vec::new();
                core::mem::swap(s, &mut out);
                Buffer::Vec2(out)
            },
            Buffer::Vec3(s) => {
                let mut out: Vec<(u64, [u64; 3])> = Vec::new();
                core::mem::swap(s, &mut out);
                Buffer::Vec3(out)
            },
        }
    }

    /// Puts `point` at the end, timed from `start`, if it has the shape of
    /// this buffer, and says whether it did.
    pub fn push(&mut self, point: Point, start: u64) -> (accepted: bool)
        ensures
            accepted == (point.shape() == old(self)@.shape()),
            final(self)@ == old(self)@.with_point(point, start),
    {
        match (self, point) {
            (Buffer::Scalar(buf), Point::Scalar(p)) => {
                buf.push((duration_since(p.0, start), p.1));
                true
            },
            (Buffer::Vec2(buf), Point::Vec2(p)) => {
                buf.push((duration_since(p.0, start), p.1));
                true
            },
            (Buffer::Vec3(buf), Point::Vec3(p)) => {
                buf.push((duration_since(p.0, start), p.1));
                true
            },
            _ => false,
        }
    }
}

/// What became of a sample that was offered to the engine.
#[derive(Debug, Clone, Copy, PartialEq, Eq, Structural)]
pub enum PointOutcome {
    /// The names were new: a subplot was made, of the sample's shape.
    Created,
    /// The sample went to the end of its subplot's buffer.
    Appended,
    /// The subplot holds samples of another shape: the sample was dropped.
    Mismatch { expected: Shape, found: Shape },
}

/// The samples of one pair of names, with the instant at which the subplot
/// began and the instant at which its buffer was last handed out.
#[derive(Debug)]
pub struct SubPlot {
    start: u64,
    names: (String, String),
    point_buffer: Buffer,
    last_update: u64,
}

/// What a [`SubPlot`] holds.
pub ghost struct SubPlotView {
    pub series: Seq<char>,
    pub subseries: Seq<char>,
    pub start: u64,
    pub last_update: u64,
    pub buffer: BufferView,
}

impl SubPlotView {
    /// The subplot that the first sample of a pair of names makes at `now`.
    pub open spec fn fresh(
        series: Seq<char>,
        subseries: Seq<char>,
        point: Point,
        now: u64,
    ) -> SubPlotView {
        SubPlotView {
            series,
            subseries,
            start: now,
            last_update: now,
            buffer: BufferView::starting_with(point),
        }
    }

    /// Whether this is the subplot of these names.
    pub open spec fn has_names(self, series: Seq<char>, subseries: Seq<char>) -> bool {
        self.series == series && self.subseries == subseries
    }

    /// This subplot after `point` was offered to it.
    pub open spec fn with_point(self, point: Point) -> SubPlotView {
        SubPlotView { buffer: self.buffer.with_point(point, self.start), ..self }
    }

    /// Whether the buffer is to be handed out at `now`: it is full, or it
    /// holds something and has waited long enough.
    pub open spec fn due(self, now: u64) -> bool {
        self.buffer.len() >= BUFFER_SIZE || (elapsed(now, self.last_update) >= BUFFER_TIMEOUT
            && self.buffer.len() > 0)
    }

    /// This subplot after a round of handing out at `now`.
    pub open spec fn flushed(self, now: u64) -> SubPlotView {
        if self.due(now) {
            SubPlotView { buffer: self.buffer.cleared(), last_update: now, ..self }
        } else {
            self
        }
    }

    /// The batch that this subplot hands out.
    pub open spec fn batch(self) -> (Seq<char>, Seq<char>, BufferView) {
        (self.series, self.subseries, self.buffer)
    }
}

impl View for SubPlot {
    type V = SubPlotView;

    closed spec fn view(&self) -> SubPlotView {
        SubPlotView {
            series: self.names.0@,
            subseries: self.names.1@,
            start: self.start,
            last_update: self.last_update,
            buffer: self.point_buffer@,
        }
    }
}

impl SubPlot {
    /// Makes the subplot of `names` at `now`, from its first sample.
    pub fn new(names: (String, String), point: Point, now: u64) -> (r: SubPlot)
        ensures
            r@ == SubPlotView::fresh(names.0@, names.1@, point, now),
    {
        SubPlot { names, start: now, point_buffer: Buffer::from(point), last_update: now }
    }

    /// Offers `point` to this subplot, which takes it if it has the
    /// subplot's shape and drops it otherwise, and says which.
    pub fn add_point(&mut self, point: Point) -> (accepted: bool)
        ensures
            accepted == (point.shape() == old(self)@.buffer.shape()),
            final(self)@ == old(self)@.with_point(point),
    {
        self.point_buffer.push(point, self.start)
    }

    /// The series and the subseries.
    pub fn names(&self) -> (r: &(String, String))
        ensures
            r.0@ == self@.series,
            r.1@ == self@.subseries,
    {
        &self.names
    }

    /// Whether this is the subplot of these names.
    pub fn has_names(&self, series: &String, subseries: &String) -> (r: bool)
        ensures
            r == self@.has_names(series@, subseries@),
    {
        self.names.0 == *series && self.names.1 == *subseries
    }

    /// The shape that the first sample fixed.
    pub fn shape(&self) -> (s: Shape)
        ensures
            s == self@.buffer.shape(),
    {
        self.point_buffer.shape()
    }

    /// The number of samples that wait.
    pub fn len(&self) -> (n: usize)
        ensures
            n == self@.buffer.len(),
    {
        self.point_buffer.len()
    }

    /// The samples that wait.
    pub fn buffer(&self) -> (b: &Buffer)
        ensures
            b@ == self@.buffer,
    {
        &self.point_buffer
    }

    /// Whether the buffer is to be handed out at `now`.
    pub fn is_due(&self, now: u64) -> (r: bool)
        ensures
            r == self@.due(now),
    {
        self.point_buffer.len() >= BUFFER_SIZE || (duration_since(now, self.last_update)
            >= BUFFER_TIMEOUT && !self.point_buffer.is_empty())
    }

    /// Hands out the buffer if it is due at `now`, and then starts to wait
    /// anew from `now`; otherwise changes nothing.
    pub fn flush(&mut self, now: u64) -> (r: Option<(String, String, Buffer)>)
        ensures
            final(self)@ == old(self)@.flushed(now),
            old(self)@.due(now) ==> r is Some && batch_view(r->Some_0) == old(self)@.batch(),
            !old(self)@.due(now) ==> r is None,
    {
        if self.is_due(now) {
            let samples = self.point_buffer.take();
            self.last_update = now;
            Some((self.names.0.clone(), self.names.1.clone(), samples))
        } else {
            None
        }
    }
}

/// What a batch holds.
pub open spec fn batch_view(batch: (String, String, Buffer)) -> (Seq<char>, Seq<char>, BufferView) {
    (batch.0@, batch.1@, batch.2@)
}

/// What the batches of `items` hold.
pub open spec fn batch_views(items: Seq<(String, String, Buffer)>) -> Seq<
    (Seq<char>, Seq<char>, BufferView),
> {
    Seq::new(items.len(), |i: int| batch_view(items[i]))
}

/// Whether no two subplots of `plots` have the same names.
pub open spec fn distinct_names(plots: Seq<SubPlotView>) -> bool {
    forall|i: int, j: int|
        0 <= i < j < plots.len() ==> !(#[trigger] plots[i]).has_names(
            (#[trigger] plots[j]).series,
            plots[j].subseries,
        )
}

/// The place in `plots` of the subplot of these names, and the length of
/// `plots` if there is none.
pub open spec fn position(plots: Seq<SubPlotView>, series: Seq<char>, subseries: Seq<char>) -> int
    decreases plots.len(),
{
    if plots.len() == 0 {
        0
    } else if plots[0].has_names(series, subseries) {
        0
    } else {
        1 + position(plots.drop_first(), series, subseries)
    }
}

/// The subplots after `point` was offered under these names at `now`: a
/// new subplot at the end if the names are new, and otherwise the subplot
/// of these names with the sample, or without it if the shapes differ.
pub open spec fn added(
    plots: Seq<SubPlotView>,
    series: Seq<char>,
    subseries: Seq<char>,
    point: Point,
    now: u64,
) -> Seq<SubPlotView> {
    let i = position(plots, series, subseries);
    if i < plots.len() {
        plots.update(i, plots[i].with_point(point))
    } else {
        plots.push(SubPlotView::fresh(series, subseries, point, now))
    }
}

/// What becomes of `point` when it is offered under these names.
pub open spec fn outcome(
    plots: Seq<SubPlotView>,
    series: Seq<char>,
    subseries: Seq<char>,
    point: Point,
) -> PointOutcome {
    let i = position(plots, series, subseries);
    if i >= plots.len() {
        PointOutcome::Created
    } else if plots[i].buffer.shape() == point.shape() {
        PointOutcome::Appended
    } else {
        PointOutcome::Mismatch { expected: plots[i].buffer.shape(), found: point.shape() }
    }
}

/// The subplots after a round of handing out at `now`.
pub open spec fn after_flush(plots: Seq<SubPlotView>, now: u64) -> Seq<SubPlotView> {
    Seq::new(plots.len(), |i: int| plots[i].flushed(now))
}

/// The batches that a round of handing out at `now` gives: one for each
/// subplot that is due, in the order in which the subplots were made.
pub open spec fn batches(plots: Seq<SubPlotView>, now: u64) -> Seq<
    (Seq<char>, Seq<char>, BufferView),
>
    decreases plots.len(),
{
    if plots.len() == 0 {
        Seq::empty()
    } else if plots.last().due(now) {
        batches(plots.drop_last(), now).push(plots.last().batch())
    } else {
        batches(plots.drop_last(), now)
    }
}

/// `position` gives the first place whose subplot has the names.
pub proof fn lemma_position(plots: Seq<SubPlotView>, series: Seq<char>, subseries: Seq<char>)
    ensures
        0 <= position(plots, series, subseries) <= plots.len(),
        position(plots, series, subseries) < plots.len() ==> plots[position(
            plots,
            series,
            subseries,
        )].has_names(series, subseries),
        forall|j: int|
            0 <= j < position(plots, series, subseries) ==> !(#[trigger] plots[j]).has_names(
                series,
                subseries,
            ),
    decreases plots.len(),
{
    if plots.len() != 0 && !plots[0].has_names(series, subseries) {
        let rest = plots.drop_first();
        lemma_position(rest, series, subseries);
        assert forall|j: int| 0 <= j < position(plots, series, subseries) implies !(
        #[trigger] plots[j]).has_names(series, subseries) by {
            if j > 0 {
                assert(plots[j] == rest[j - 1]);
            }
        }
    }
}

/// Offering a sample leaves the names distinct.
pub proof fn lemma_added_keeps_names_distinct(
    plots: Seq<SubPlotView>,
    series: Seq<char>,
    subseries: Seq<char>,
    point: Point,
    now: u64,
)
    requires
        distinct_names(plots),
    ensures
        distinct_names(added(plots, series, subseries, point, now)),
{
    lemma_position(plots, series, subseries);
}

/// A round of handing out leaves the names distinct.
pub proof fn lemma_flush_keeps_names_distinct(plots: Seq<SubPlotView>, now: u64)
    requires
        distinct_names(plots),
    ensures
        distinct_names(after_flush(plots, now)),
{
    let after = after_flush(plots, now);
    assert forall|i: int, j: int| 0 <= i < j < after.len() implies !(#[trigger] after[i]).has_names(
        (#[trigger] after[j]).series,
        after[j].subseries,
    ) by {}
}

/// The subplots of all the names, each with the samples that wait for the
/// client. No two subplots have the same names.
#[derive(Debug)]
pub struct PlotManager {
    plots: Vec<SubPlot>,
}

/// What the subplots of `items` hold.
pub open spec fn subplot_views(items: Seq<SubPlot>) -> Seq<SubPlotView> {
    Seq::new(items.len(), |i: int| items[i]@)
}

impl View for PlotManager {
    type V = Seq<SubPlotView>;

    /// The subplots, in the order in which they were made.
    closed spec fn view(&self) -> Seq<SubPlotView> {
        subplot_views(self.plots@)
    }
}

impl Default for PlotManager {
    fn default() -> (r: PlotManager)
        ensures
            r@ == Seq::<SubPlotView>::empty(),
    {
        PlotManager::new()
    }
}

impl PlotManager {
    #[verifier::type_invariant]
    spec fn names_are_distinct(self) -> bool {
        distinct_names(self@)
    }

    /// An engine without subplots.
    pub fn new() -> (r: PlotManager)
        ensures
            r@ == Seq::<SubPlotView>::empty(),
    {
        PlotManager { plots: Vec::new() }
    }

    /// The number of subplots.
    pub fn len(&self) -> (n: usize)
        ensures
            n == self@.len(),
            distinct_names(self@),
    {
        proof {
            use_type_invariant(self);
        }
        self.plots.len()
    }

    /// The place of the subplot of these names, if there is one.
    pub fn find(&self, series: &String, subseries: &String) -> (r: Option<usize>)
        ensures
            match r {
                Some(i) => i == position(self@, series@, subseries@) && i < self@.len(),
                None => position(self@, series@, subseries@) == self@.len(),
            },
    {
        let mut i: usize = 0;
        while i < self.plots.len()
            invariant
                i <= self.plots@.len(),
                forall|j: int| 0 <= j < i ==> !(#[trigger] self@[j]).has_names(series@, subseries@),
            decreases self.plots@.len() - i,
        {
            if self.plots[i].has_names(series, subseries) {
                proof {
                    lemma_position(self@, series@, subseries@);
                    assert(self@[i as int].has_names(series@, subseries@));
                }
                return Some(i);
            }
            i += 1;
        }
        proof {
            lemma_position(self@, series@, subseries@);
        }
        None
    }

    /// The shape of the subplot of these names, if there is one.
    pub fn shape_of(&self, series: &String, subseries: &String) -> (r: Option<Shape>)
        ensures
            match r {
                Some(shape) => position(self@, series@, subseries@) < self@.len() && shape
                    == self@[position(self@, series@, subseries@)].buffer.shape(),
                None => position(self@, series@, subseries@) == self@.len(),
            },
    {
        match self.find(series, subseries) {
            Some(i) => Some(self.plots[i].shape()),
            None => None,
        }
    }

    /// The subplot at place `i`.
    pub fn get(&self, i: usize) -> (r: Option<&SubPlot>)
        ensures
            i < self@.len() ==> r is Some && r->Some_0@ == self@[i as int],
            i >= self@.len() ==> r is None,
    {
        if i < self.plots.len() {
            Some(&self.plots[i])
        } else {
            None
        }
    }

    /// Takes in one sample under a pair of names. New names make a subplot
    /// of the sample's shape that begins at `now`. Known names get the
    /// sample at the end of their buffer if it has their shape; a sample of
    /// another shape is dropped, and the outcome names both shapes.
    pub fn add_point(&mut self, plot_name: String, subplt_name: String, point: Point, now: u64) -> (r:
        PointOutcome)
        ensures
            final(self)@ == added(old(self)@, plot_name@, subplt_name@, point, now),
            r == outcome(old(self)@, plot_name@, subplt_name@, point),
            distinct_names(final(self)@),
    {
        proof {
            use_type_invariant(&*self);
            lemma_added_keeps_names_distinct(self@, plot_name@, subplt_name@, point, now);
        }
        let found = self.find(&plot_name, &subplt_name);
        let mut plots: Vec<SubPlot> = Vec::new();
        core::mem::swap(&mut self.plots, &mut plots);
        let r = match found {
            Some(i) => {
                let expected = plots[i].shape();
                let accepted = plots[i].add_point(point);
                if accepted {
                    PointOutcome::Appended
                } else {
                    PointOutcome::Mismatch { expected, found: point.shape() }
                }
            },
            None => {
                plots.push(SubPlot::new((plot_name, subplt_name), point, now));
                PointOutcome::Created
            },
        };
        assert(subplot_views(plots@) =~= added(old(self)@, plot_name@, subplt_name@, point, now));
        self.plots = plots;
        r
    }

    /// Hands out, as one batch each, the buffers that are due at `now`:
    /// those that hold at least [`BUFFER_SIZE`] samples, and those that hold
    /// anything and were last handed out [`BUFFER_TIMEOUT`] or longer ago.
    /// A buffer that is handed out is left empty and waits anew from `now`;
    /// the other subplots are not touched.
    pub fn buffers_to_send(&mut self, now: u64) -> (r: Vec<(String, String, Buffer)>)
        ensures
            final(self)@ == after_flush(old(self)@, now),
            batch_views(r@) == batches(old(self)@, now),
            distinct_names(final(self)@),
    {
        proof {
            use_type_invariant(&*self);
        }
        let mut plots: Vec<SubPlot> = Vec::new();
        core::mem::swap(&mut self.plots, &mut plots);
        let ghost start = subplot_views(plots@);
        let mut out: Vec<(String, String, Buffer)> = Vec::new();
        let mut i: usize = 0;
        while i < plots.len()
            invariant
                i <= plots@.len(),
                plots@.len() == start.len(),
                forall|j: int| 0 <= j < i ==> (#[trigger] plots@[j])@ == start[j].flushed(now),
                forall|j: int| i <= j < plots@.len() ==> (#[trigger] plots@[j])@ == start[j],
                batch_views(out@) == batches(start.take(i as int), now),
            decreases plots@.len() - i,
        {
            let flushed = plots[i].flush(now);
            proof {
                // The subplots up to this one are those before it, and it.
                assert(start.take(i as int + 1).drop_last() =~= start.take(i as int));
            }
            if let Some(batch) = flushed {
                out.push(batch);
            }
            i += 1;
        }
        proof {
            assert(start.take(i as int) =~= start);
            lemma_flush_keeps_names_distinct(start, now);
        }
        self.plots = plots;
        out
    }
}

/// The number of batches that a round at `now` gives before it comes to
/// the subplot at place `i`.
pub open spec fn rank(plots: Seq<SubPlotView>, now: u64, i: int) -> int {
    batches(plots.take(i), now).len() as int
}

/// The place of the subplot whose batch is the `k`-th that a round at `now`
/// gives.
pub open spec fn source(plots: Seq<SubPlotView>, now: u64, k: int) -> int
    decreases plots.len(),
{
    if plots.len() == 0 {
        0
    } else if plots.last().due(now) && k == batches(plots.drop_last(), now).len() {
        plots.len() - 1
    } else {
        source(plots.drop_last(), now, k)
    }
}

/// The buffer that holds the samples of `points`, the first of which made
/// the subplot at `start`: each sample in its place, in the order of arrival.
pub open spec fn recorded(points: Seq<Point>, start: u64) -> BufferView
    recommends
        points.len() >= 1,
    decreases points.len(),
{
    if points.len() <= 1 {
        BufferView::starting_with(points[0])
    } else {
        recorded(points.drop_last(), start).with_point(points.last(), start)
    }
}

/// The subplots after the samples of `points` were offered under the same
/// names one after another, the k-th of them at the instant `times[k]`.
pub open spec fn offered(
    plots: Seq<SubPlotView>,
    series: Seq<char>,
    subseries: Seq<char>,
    points: Seq<Point>,
    times: Seq<u64>,
) -> Seq<SubPlotView>
    recommends
        points.len() == times.len(),
    decreases points.len(),
{
    if points.len() == 0 {
        plots
    } else {
        added(
            offered(plots, series, subseries, points.drop_last(), times.drop_last()),
            series,
            subseries,
            points.last(),
            times.last(),
        )
    }
}

/// The batches of a round are those of the subplots that are due, each at
/// its rank, and there is no other batch.
pub proof fn lemma_batches_are_the_due_subplots(plots: Seq<SubPlotView>, now: u64)
    ensures
        batches(plots, now).len() <= plots.len(),
        forall|i: int|
            0 <= i < plots.len() && (#[trigger] plots[i]).due(now) ==> 0 <= rank(plots, now, i)
                < batches(plots, now).len() && batches(plots, now)[rank(plots, now, i)]
                == plots[i].batch(),
        forall|k: int|
            0 <= k < batches(plots, now).len() ==> 0 <= #[trigger] source(plots, now, k)
                < plots.len() && plots[source(plots, now, k)].due(now) && rank(
                plots,
                now,
                source(plots, now, k),
            ) == k && batches(plots, now)[k] == plots[source(plots, now, k)].batch(),
    decreases plots.len(),
{
    if plots.len() > 0 {
        let init = plots.drop_last();
        let last = plots.len() - 1;
        lemma_batches_are_the_due_subplots(init, now);
        assert forall|i: int| 0 <= i < last implies rank(plots, now, i) == rank(init, now, i) by {
            assert(plots.take(i) =~= init.take(i));
        }
        assert forall|i: int| 0 <= i < plots.len() && (#[trigger] plots[i]).due(now) implies 0
            <= rank(plots, now, i) < batches(plots, now).len() && batches(plots, now)[rank(
            plots,
            now,
            i,
        )] == plots[i].batch() by {
            if i < last {
                assert(plots[i] == init[i]);
            }
        }
        assert forall|k: int| 0 <= k < batches(plots, now).len() implies 0 <= #[trigger] source(
            plots,
            now,
            k,
        ) < plots.len() && plots[source(plots, now, k)].due(now) && rank(
            plots,
            now,
            source(plots, now, k),
        ) == k && batches(plots, now)[k] == plots[source(plots, now, k)].batch() by {
            if k < batches(init, now).len() {
                // The round gave this batch before it came to the last subplot.
                let i = source(init, now, k);
            }
        }
    }
}

/// A subplot that is due, because it is full or because it holds samples
/// and has waited long enough, is handed out in exactly one batch, which
/// holds its samples as they are. Afterwards its buffer is empty and it
/// waits anew from `now`.
pub proof fn lemma_due_subplot_is_handed_out(plots: Seq<SubPlotView>, i: int, now: u64)
    requires
        distinct_names(plots),
        0 <= i < plots.len(),
        plots[i].due(now),
    ensures
        0 <= rank(plots, now, i) < batches(plots, now).len(),
        batches(plots, now)[rank(plots, now, i)] == plots[i].batch(),
        forall|k: int|
            0 <= k < batches(plots, now).len() && (#[trigger] batches(plots, now)[k]).0
                == plots[i].series && batches(plots, now)[k].1 == plots[i].subseries ==> k
                == rank(plots, now, i),
        after_flush(plots, now)[i].buffer == plots[i].buffer.cleared(),
        after_flush(plots, now)[i].buffer.len() == 0,
        after_flush(plots, now)[i].last_update == now,
{
    lemma_batches_are_the_due_subplots(plots, now);
    assert forall|k: int|
        0 <= k < batches(plots, now).len() && (#[trigger] batches(plots, now)[k]).0
            == plots[i].series && batches(plots, now)[k].1 == plots[i].subseries implies k == rank(
        plots,
        now,
        i,
    ) by {
        // The batch comes from the subplot at `j`, which can only be the
        // one at `i`: no two subplots have the same names.
        let j = source(plots, now, k);
    }
}

/// A subplot that is not due gives no batch and is left as it is.
pub proof fn lemma_waiting_subplot_is_kept(plots: Seq<SubPlotView>, i: int, now: u64)
    requires
        distinct_names(plots),
        0 <= i < plots.len(),
        !plots[i].due(now),
    ensures
        forall|k: int|
            0 <= k < batches(plots, now).len() ==> !((#[trigger] batches(plots, now)[k]).0
                == plots[i].series && batches(plots, now)[k].1 == plots[i].subseries),
        after_flush(plots, now)[i] == plots[i],
{
    lemma_batches_are_the_due_subplots(plots, now);
    assert forall|k: int| 0 <= k < batches(plots, now).len() implies !((#[trigger] batches(
        plots,
        now,
    )[k]).0 == plots[i].series && batches(plots, now)[k].1 == plots[i].subseries) by {
        // The batch comes from the subplot at `j`, which is due and so is
        // not the one at `i`; and no two subplots have the same names.
        let j = source(plots, now, k);
    }
}

/// A second round at the same instant hands out nothing, whatever the
/// first one gave.
pub proof fn lemma_second_round_gives_nothing(plots: Seq<SubPlotView>, now: u64)
    ensures
        batches(after_flush(plots, now), now) == Seq::<(Seq<char>, Seq<char>, BufferView)>::empty(),
{
    let after = after_flush(plots, now);
    lemma_batches_are_the_due_subplots(after, now);
    if batches(after, now).len() > 0 {
        // A first batch would come from a subplot that is due after the
        // round, and there is none: a buffer that was handed out is empty,
        // and one that was not is no more due than it was.
        let i = source(after, now, 0);
    }
}

/// The first sample of a subplot fixes its shape and its names for good:
/// no sample that comes later and no round of handing out changes them, and
/// no subplot ever leaves.
pub proof fn lemma_shape_is_fixed(
    plots: Seq<SubPlotView>,
    series: Seq<char>,
    subseries: Seq<char>,
    point: Point,
    now: u64,
    i: int,
)
    requires
        0 <= i < plots.len(),
    ensures
        added(plots, series, subseries, point, now).len() >= plots.len(),
        added(plots, series, subseries, point, now)[i].buffer.shape() == plots[i].buffer.shape(),
        added(plots, series, subseries, point, now)[i].has_names(plots[i].series, plots[i].subseries),
        after_flush(plots, now).len() == plots.len(),
        after_flush(plots, now)[i].buffer.shape() == plots[i].buffer.shape(),
        after_flush(plots, now)[i].has_names(plots[i].series, plots[i].subseries),
{
    lemma_position(plots, series, subseries);
}

/// A sample whose shape is not that of its subplot changes nothing: every
/// buffer keeps its samples and its length. The outcome reports the
/// mismatch with both shapes.
pub proof fn lemma_mismatched_sample_is_dropped(
    plots: Seq<SubPlotView>,
    series: Seq<char>,
    subseries: Seq<char>,
    point: Point,
    now: u64,
)
    requires
        position(plots, series, subseries) < plots.len(),
        plots[position(plots, series, subseries)].buffer.shape() != point.shape(),
    ensures
        added(plots, series, subseries, point, now) == plots,
        outcome(plots, series, subseries, point) == (PointOutcome::Mismatch {
            expected: plots[position(plots, series, subseries)].buffer.shape(),
            found: point.shape(),
        }),
{
    lemma_position(plots, series, subseries);
}

/// Samples of one shape that are offered under new names all come to stand
/// in the buffer of one new subplot, in the order of their arrival, and no
/// other subplot changes.
pub proof fn lemma_offered_samples_are_recorded(
    plots: Seq<SubPlotView>,
    series: Seq<char>,
    subseries: Seq<char>,
    points: Seq<Point>,
    times: Seq<u64>,
)
    requires
        position(plots, series, subseries) == plots.len(),
        points.len() >= 1,
        points.len() == times.len(),
        forall|k: int| 0 <= k < points.len() ==> (#[trigger] points[k]).shape() == points[0].shape(),
    ensures
        offered(plots, series, subseries, points, times) == plots.push(
            SubPlotView {
                series,
                subseries,
                start: times[0],
                last_update: times[0],
                buffer: recorded(points, times[0]),
            },
        ),
        recorded(points, times[0]).len() == points.len(),
        recorded(points, times[0]).shape() == points[0].shape(),
    decreases points.len(),
{
    lemma_position(plots, series, subseries);
    if points.len() == 1 {
        assert(offered(plots, series, subseries, points.drop_last(), times.drop_last()) == plots);
    } else {
        let before = points.drop_last();
        let earlier = times.drop_last();
        assert forall|k: int| 0 <= k < before.len() implies (#[trigger] before[k]).shape()
            == before[0].shape() by {}
        lemma_offered_samples_are_recorded(plots, series, subseries, before, earlier);
        let mid = offered(plots, series, subseries, before, earlier);
        lemma_position_of_last(plots, mid[plots.len() as int]);
    }
}

/// A subplot whose names no subplot of `plots` has stands, behind them, at
/// the place that `position` gives for its names.
proof fn lemma_position_of_last(plots: Seq<SubPlotView>, last: SubPlotView)
    requires
        position(plots, last.series, last.subseries) == plots.len(),
    ensures
        position(plots.push(last), last.series, last.subseries) == plots.len(),
    decreases plots.len(),
{
    let all = plots.push(last);
    if plots.len() > 0 {
        lemma_position(plots.drop_first(), last.series, last.subseries);
        assert(all.drop_first() =~= plots.drop_first().push(last));
        lemma_position_of_last(plots.drop_first(), last);
    }
}

/// Samples of one shape that fill a buffer are handed out whole. When at
/// least [`BUFFER_SIZE`] samples of one shape were offered under new names,
/// a round at any instant gives exactly one batch of these names, which
/// holds all the samples in the order of their arrival, and leaves the
/// buffer of these names empty.
pub proof fn lemma_full_buffer_is_handed_out_whole(
    plots: Seq<SubPlotView>,
    series: Seq<char>,
    subseries: Seq<char>,
    points: Seq<Point>,
    times: Seq<u64>,
    now: u64,
)
    requires
        distinct_names(plots),
        position(plots, series, subseries) == plots.len(),
        points.len() >= BUFFER_SIZE,
        points.len() == times.len(),
        forall|k: int| 0 <= k < points.len() ==> (#[trigger] points[k]).shape() == points[0].shape(),
    ensures
        ({
            let after = offered(plots, series, subseries, points, times);
            let place = plots.len() as int;
            let round = batches(after, now);
            &&& after.len() == plots.len() + 1
            &&& 0 <= rank(after, now, place) < round.len()
            &&& round[rank(after, now, place)] == (series, subseries, recorded(points, times[0]))
            &&& recorded(points, times[0]).len() == points.len()
            &&& forall|k: int|
                0 <= k < round.len() && (#[trigger] round[k]).0 == series && round[k].1
                    == subseries ==> k == rank(after, now, place)
            &&& after_flush(after, now)[place].buffer.len() == 0
        }),
{
    let after = offered(plots, series, subseries, points, times);
    lemma_offered_keeps_names_distinct(plots, series, subseries, points, times);
    lemma_due_subplot_is_handed_out(after, plots.len() as int, now);
}

/// Samples that have waited long enough are handed out, once. When
/// samples of one shape were offered under new names and [`BUFFER_TIMEOUT`]
/// or more has gone by since the first of them, a round gives exactly one
/// batch of these names, which holds all the samples in the order of their
/// arrival. A round after that, at whatever instant, gives no batch of
/// these names as long as no sample has come.
pub proof fn lemma_waiting_buffer_is_handed_out_once(
    plots: Seq<SubPlotView>,
    series: Seq<char>,
    subseries: Seq<char>,
    points: Seq<Point>,
    times: Seq<u64>,
    now: u64,
    later: u64,
)
    requires
        distinct_names(plots),
        position(plots, series, subseries) == plots.len(),
        points.len() >= 1,
        points.len() == times.len(),
        forall|k: int| 0 <= k < points.len() ==> (#[trigger] points[k]).shape() == points[0].shape(),
        elapsed(now, times[0]) >= BUFFER_TIMEOUT,
    ensures
        ({
            let after = offered(plots, series, subseries, points, times);
            let place = plots.len() as int;
            let round = batches(after, now);
            let next = batches(after_flush(after, now), later);
            &&& 0 <= rank(after, now, place) < round.len()
            &&& round[rank(after, now, place)] == (series, subseries, recorded(points, times[0]))
            &&& recorded(points, times[0]).len() == points.len()
            &&& forall|k: int|
                0 <= k < round.len() && (#[trigger] round[k]).0 == series && round[k].1
                    == subseries ==> k == rank(after, now, place)
            &&& forall|k: int|
                0 <= k < next.len() ==> !((#[trigger] next[k]).0 == series && next[k].1
                    == subseries)
        }),
{
    let after = offered(plots, series, subseries, points, times);
    let place = plots.len() as int;
    lemma_offered_keeps_names_distinct(plots, series, subseries, points, times);
    lemma_due_subplot_is_handed_out(after, place, now);
    lemma_flush_keeps_names_distinct(after, now);
    lemma_waiting_subplot_is_kept(after_flush(after, now), place, later);
}

/// Samples of one shape that are offered under new names leave the names
/// distinct, and make the one subplot that `lemma_offered_samples_are_recorded`
/// describes.
proof fn lemma_offered_keeps_names_distinct(
    plots: Seq<SubPlotView>,
    series: Seq<char>,
    subseries: Seq<char>,
    points: Seq<Point>,
    times: Seq<u64>,
)
    requires
        distinct_names(plots),
        position(plots, series, subseries) == plots.len(),
        points.len() >= 1,
        points.len() == times.len(),
        forall|k: int| 0 <= k < points.len() ==> (#[trigger] points[k]).shape() == points[0].shape(),
    ensures
        ({
            let after = offered(plots, series, subseries, points, times);
            let place = plots.len() as int;
            &&& distinct_names(after)
            &&& after.len() == plots.len() + 1
            &&& after[place].has_names(series, subseries)
            &&& after[place].last_update == times[0]
            &&& after[place].buffer == recorded(points, times[0])
            &&& recorded(points, times[0]).len() == points.len()
        }),
{
    lemma_offered_samples_are_recorded(plots, series, subseries, points, times);
    lemma_position(plots, series, subseries);
}

} // verus!

use vstd::prelude::*;

use crate::app::{next_position, next_position_spec, Target, TargetView};
use crate::keys::Timing;
use crate::text::{eq_ignore_ascii_case, eq_ignore_case};

verus! {

/// What is selected on the sky and whether the view is zoomed on a figure.
/// While zoomed, `zoom_code` names the figure in view.
#[derive(Debug)]
pub struct Selection {
    pub target: Option<Target>,
    pub zoomed: bool,
    pub zoom_code: Option<String>,
}

/// A change to the sky's running transition that a selection change asks for.
#[derive(Debug, Clone, PartialEq, Eq)]
pub enum TransitionChange {
    /// The running transition, if any, goes on.
    Keep,
    /// The running transition stops.
    Clear,
    /// Pan from one zoomed figure to another.
    Zoom { from: String, to: String },
    /// Zoom in on a figure.
    ZoomIn(String),
    /// Zoom out of a figure.
    ZoomOut(String),
}

pub enum TransitionView {
    Keep,
    Clear,
    Zoom { from: Seq<char>, to: Seq<char> },
    ZoomIn(Seq<char>),
    ZoomOut(Seq<char>),
}

impl View for TransitionChange {
    type V = TransitionView;

    open spec fn view(&self) -> TransitionView {
        match self {
            TransitionChange::Keep => TransitionView::Keep,
            TransitionChange::Clear => TransitionView::Clear,
            TransitionChange::Zoom { from, to } => TransitionView::Zoom { from: from@, to: to@ },
            TransitionChange::ZoomIn(c) => TransitionView::ZoomIn(c@),
            TransitionChange::ZoomOut(c) => TransitionView::ZoomOut(c@),
        }
    }
}

/// The selection as values: the selected target, whether zoomed, the zoomed
/// figure.
pub type SelectionView = (Option<TargetView>, bool, Option<Seq<char>>);

impl View for Selection {
    type V = SelectionView;

    open spec fn view(&self) -> SelectionView {
        (
            match self.target {
                Some(t) => Some(t@),
                None => None,
            },
            self.zoomed,
            match self.zoom_code {
                Some(c) => Some(c@),
                None => None,
            },
        )
    }
}

/// The figure in view: the zoomed figure while zoomed, else the selected
/// figure, if a figure is selected.
pub open spec fn selected_code_of(s: SelectionView) -> Option<Seq<char>> {
    if s.1 && s.2 is Some {
        s.2
    } else {
        match s.0 {
            Some(TargetView::Constellation(c)) => Some(c),
            _ => None,
        }
    }
}

/// A pan between zoomed figures runs only with animations on and between
/// figures whose codes differ beyond ASCII case.
pub open spec fn pan(animations: bool, from: Option<Seq<char>>, to: Seq<char>) -> TransitionView {
    match from {
        Some(f) => if animations && !eq_ignore_case(f, to) {
            TransitionView::Zoom { from: f, to }
        } else {
            TransitionView::Keep
        },
        None => TransitionView::Keep,
    }
}

/// The first position in `codes` of a code equal to `code` up to ASCII case.
pub open spec fn code_position(codes: Seq<Seq<char>>, code: Seq<char>) -> Option<usize>
    decreases codes.len(),
{
    if codes.len() == 0 {
        None
    } else {
        match code_position(codes.drop_last(), code) {
            Some(k) => Some(k),
            None => if eq_ignore_case(codes.last(), code) {
                Some((codes.len() - 1) as usize)
            } else {
                None
            },
        }
    }
}

pub open spec fn codes_view(v: Seq<String>) -> Seq<Seq<char>> {
    v.map_values(|s: String| s@)
}

/// The figure that a step through `codes` lands on from selection `s`.
pub open spec fn next_code(s: SelectionView, codes: Seq<Seq<char>>, forward: bool) -> Seq<char> {
    let current = match selected_code_of(s) {
        Some(c) => code_position(codes, c),
        None => None,
    };
    codes[next_position_spec(current, codes.len() as int, forward)]
}

/// Whether the zoomed flag comes with the figure in view.
pub open spec fn zoom_named(s: SelectionView) -> bool {
    s.1 ==> s.2 is Some
}

fn position_ignoring_case(codes: &Vec<String>, code: &str) -> (r: Option<usize>)
    ensures
        r == code_position(codes_view(codes@), code@),
        r matches Some(k) ==> k < codes.len(),
{
    let ghost cv = codes_view(codes@);
    let mut k: usize = 0;
    while k < codes.len()
        invariant
            k <= codes.len(),
            cv == codes_view(codes@),
            code_position(cv.take(k as int), code@) is None,
        decreases codes.len() - k,
    {
        assert(cv.take(k + 1).drop_last() =~= cv.take(k as int));
        assert(cv.take(k + 1).last() == codes@[k as int]@);
        if eq_ignore_ascii_case(codes[k].as_str(), code) {
            proof {
                lemma_code_position_prefix(cv, code@, (k + 1) as int);
            }
            return Some(k);
        }
        k = k + 1;
    }
    assert(cv.take(codes.len() as int) =~= cv);
    None
}

proof fn lemma_code_position_prefix(codes: Seq<Seq<char>>, code: Seq<char>, n: int)
    requires
        0 < n <= codes.len(),
        code_position(codes.take(n - 1), code) is None,
        eq_ignore_case(codes[n - 1], code),
    ensures
        code_position(codes, code) == Some((n - 1) as usize),
    decreases codes.len(),
{
    assert(codes.take(n).drop_last() =~= codes.take(n - 1));
    if n == codes.len() {
        assert(codes.take(n) =~= codes);
    } else {
        assert(codes.drop_last().take(n) =~= codes.take(n));
        assert(codes.drop_last().take(n - 1) =~= codes.take(n - 1));
        lemma_code_position_prefix(codes.drop_last(), code, n);
    }
}

fn pan_exec(animations: bool, from: Option<String>, to: &String) -> (r: TransitionChange)
    ensures
        r@ == pan(
            animations,
            match from {
                Some(f) => Some(f@),
                None => None,
            },
            to@,
        ),
{
    match from {
        Some(f) => {
            if animations && !eq_ignore_ascii_case(f.as_str(), to.as_str()) {
                TransitionChange::Zoom { from: f, to: to.clone() }
            } else {
                TransitionChange::Keep
            }
        },
        None => TransitionChange::Keep,
    }
}

impl Selection {
    /// The figure in view (see `selected_code_of`).
    pub fn selected_code(&self) -> (r: Option<String>)
        ensures
            match r {
                Some(c) => selected_code_of(self@) == Some(c@),
                None => selected_code_of(self@) is None,
            },
    {
        if self.zoomed {
            match &self.zoom_code {
                Some(c) => {
                    return Some(c.clone());
                },
                None => {},
            }
        }
        match &self.target {
            Some(Target::Constellation(c)) => Some(c.clone()),
            _ => None,
        }
    }

    /// Drops the selection and leaves any zoom; the running transition stops.
    pub fn clear(&mut self) -> (r: TransitionChange)
        ensures
            final(self)@ == (None::<TargetView>, false, None::<Seq<char>>),
            r@ == TransitionView::Clear,
    {
        self.target = None;
        self.zoomed = false;
        self.zoom_code = None;
        TransitionChange::Clear
    }

    /// Leaves the sky for the globe. The zoom ends and the selection stays.
    /// With animations on and a zoomed figure in view, the view first zooms
    /// out of that figure, returned here, and the globe comes when the
    /// zoom-out ends; otherwise the globe comes at once (none is returned).
    pub fn leave_for_globe(&mut self, animations: bool) -> (r: Option<String>)
        ensures
            final(self)@ == (old(self)@.0, false, None::<Seq<char>>),
            match r {
                Some(c) => animations && old(self)@.1 && selected_code_of(old(self)@) == Some(c@),
                None => !(animations && old(self)@.1) || selected_code_of(old(self)@) is None,
            },
    {
        let code = if animations && self.zoomed {
            self.selected_code()
        } else {
            None
        };
        self.zoomed = false;
        self.zoom_code = None;
        code
    }

    /// Leaves any zoom, keeping the selection, as coming back from the globe
    /// does.
    pub fn unzoom(&mut self)
        ensures
            final(self)@ == (old(self)@.0, false, None::<Seq<char>>),
    {
        self.zoomed = false;
        self.zoom_code = None;
    }

    /// After the sky culture changes a selected figure no longer exists: a
    /// figure selection is dropped as `clear` does; other selections stay.
    pub fn culture_changed(&mut self) -> (r: TransitionChange)
        ensures
            old(self)@.0 matches Some(TargetView::Constellation(_)) ==> final(self)@ == (
                None::<TargetView>,
                false,
                None::<Seq<char>>,
            ) && r@ == TransitionView::Clear,
            !(old(self)@.0 matches Some(TargetView::Constellation(_))) ==> final(self)@ == old(
                self,
            )@ && r@ == TransitionView::Keep,
    {
        match &self.target {
            Some(Target::Constellation(_)) => self.clear(),
            _ => TransitionChange::Keep,
        }
    }

    /// Selects figure `code`; while zoomed the view pans to it.
    pub fn select_code(&mut self, code: String, animations: bool) -> (r: TransitionChange)
        ensures
            final(self)@.0 == Some(TargetView::Constellation(code@)),
            final(self)@.1 == old(self)@.1,
            old(self)@.1 ==> final(self)@.2 == Some(code@) && r@ == (if selected_code_of(
                old(self)@,
            ) == Some(code@) {
                TransitionView::Keep
            } else {
                pan(animations, selected_code_of(old(self)@), code@)
            }),
            !old(self)@.1 ==> final(self)@.2 == old(self)@.2 && r@ == TransitionView::Keep,
            selected_code_of(final(self)@) == Some(code@),
            zoom_named(old(self)@) ==> zoom_named(final(self)@),
    {
        let previous = self.selected_code();
        let mut change = TransitionChange::Keep;
        if self.zoomed {
            let same = match &previous {
                Some(p) => p.eq(&code),
                None => false,
            };
            if !same {
                change = pan_exec(animations, previous, &code);
            }
            self.zoom_code = Some(code.clone());
        }
        self.target = Some(Target::Constellation(code));
        change
    }

    /// Steps to the next (`forward`) or previous figure of `codes`, the
    /// figures in view, starting from the figure in view; while zoomed the
    /// view pans along. Returns `None` when `codes` is empty, and nothing
    /// changes then.
    pub fn cycle_figure(&mut self, codes: &Vec<String>, forward: bool, animations: bool) -> (r:
        Option<TransitionChange>)
        ensures
            codes.len() == 0 ==> r is None && final(self)@ == old(self)@,
            codes.len() > 0 ==> {
                let to = next_code(old(self)@, codes_view(codes@), forward);
                &&& final(self)@.0 == Some(TargetView::Constellation(to))
                &&& final(self)@.1 == old(self)@.1
                &&& r is Some
                &&& old(self)@.1 ==> final(self)@.2 == Some(to) && r->0@ == pan(
                    animations,
                    selected_code_of(old(self)@),
                    to,
                )
                &&& !old(self)@.1 ==> final(self)@.2 == old(self)@.2 && r->0@
                    == TransitionView::Keep
                &&& selected_code_of(final(self)@) == Some(to)
            },
            zoom_named(old(self)@) ==> zoom_named(final(self)@),
    {
        if codes.len() == 0 {
            return None;
        }
        let previous = self.selected_code();
        let current = match &previous {
            Some(c) => position_ignoring_case(codes, c.as_str()),
            None => None,
        };
        let k = next_position(current, codes.len(), forward);
        proof {
            match current {
                Some(p) => {
                    if forward {
                        vstd::arithmetic::div_mod::lemma_mod_bound((p + 1) as int, codes.len() as int);
                    }
                },
                None => {},
            }
            assert(codes_view(codes@)[k as int] == codes@[k as int]@);
        }
        let to = codes[k].clone();
        let mut change = TransitionChange::Keep;
        if self.zoomed {
            change = pan_exec(animations, previous, &to);
            self.zoom_code = Some(to.clone());
        }
        self.target = Some(Target::Constellation(to));
        Some(change)
    }

    /// Zooms in on figure `code`, the figure in view, when it is `visible`
    /// from the observer: the view zooms in on it. A hidden figure stays
    /// selected without a zoom. Returns whether the zoom happened.
    pub fn zoom_in(&mut self, code: String, visible: bool, animations: bool) -> (r: (bool, TransitionChange))
        ensures
            visible ==> r.0 && final(self)@.1 && final(self)@.2 == Some(code@) && final(self)@.0
                == old(self)@.0 && r.1@ == (if animations {
                TransitionView::ZoomIn(code@)
            } else {
                TransitionView::Keep
            }),
            !visible ==> !r.0 && final(self)@ == (old(self)@.0, false, None::<Seq<char>>) && r.1@
                == TransitionView::Keep,
            zoom_named(final(self)@),
    {
        if !visible {
            self.zoomed = false;
            self.zoom_code = None;
            return (false, TransitionChange::Keep);
        }
        self.zoomed = true;
        self.zoom_code = Some(code.clone());
        let change = if animations {
            TransitionChange::ZoomIn(code)
        } else {
            TransitionChange::Keep
        };
        (true, change)
    }

    /// Leaves the zoom: the view zooms out of the figure that was in view, or
    /// stops its transition when no figure was in view.
    pub fn zoom_out(&mut self, animations: bool) -> (r: TransitionChange)
        ensures
            final(self)@ == (old(self)@.0, false, None::<Seq<char>>),
            r@ == match selected_code_of(old(self)@) {
                Some(c) => if animations {
                    TransitionView::ZoomOut(c)
                } else {
                    TransitionView::Keep
                },
                None => TransitionView::Clear,
            },
    {
        let code = self.selected_code();
        self.zoomed = false;
        self.zoom_code = None;
        match code {
            Some(c) => if animations {
                TransitionChange::ZoomOut(c)
            } else {
                TransitionChange::Keep
            },
            None => TransitionChange::Clear,
        }
    }

    /// Goes to a search result other than a city: a figure keeps the zoom and
    /// pans to it; anything else leaves the zoom and stops the transition.
    pub fn select_result(&mut self, target: Target, animations: bool) -> (r: TransitionChange)
        requires
            !(target is City),
        ensures
            final(self)@.0 == Some(target@),
            target matches Target::Constellation(code) ==> {
                &&& final(self)@.1 == old(self)@.1
                &&& old(self)@.1 ==> final(self)@.2 == Some(code@) && r@ == pan(
                    animations,
                    selected_code_of(old(self)@),
                    code@,
                )
                &&& !old(self)@.1 ==> final(self)@.2 == old(self)@.2 && r@ == TransitionView::Keep
            },
            !(target is Constellation) ==> !final(self)@.1 && final(self)@.2 is None && r@
                == TransitionView::Clear,
            zoom_named(old(self)@) ==> zoom_named(final(self)@),
    {
        let mut change = TransitionChange::Keep;
        match &target {
            Target::Constellation(code) => {
                if self.zoomed {
                    let previous = self.selected_code();
                    change = pan_exec(animations, previous, code);
                    self.zoom_code = Some(code.clone());
                }
            },
            _ => {
                self.zoomed = false;
                self.zoom_code = None;
                change = TransitionChange::Clear;
            },
        }
        self.target = Some(target);
        change
    }
}

// ---------------------------------------------------------------------------
// Which figure the zoomed sky shows
// ---------------------------------------------------------------------------

/// The sky transition that runs, as far as the zoomed sky cares: a move
/// between places or times, a pan between figures, a zoom in or out of a
/// figure, or a move to another place that first zooms out of a figure.
#[derive(Debug, Clone, PartialEq, Eq)]
pub enum RunningTransition {
    Place,
    Time,
    Zoom { from: String, to: String },
    ZoomIn(String),
    ZoomOut(String),
    PlaceZoomOut(String),
}

pub enum RunningView {
    Place,
    Time,
    Zoom { from: Seq<char>, to: Seq<char> },
    ZoomIn(Seq<char>),
    ZoomOut(Seq<char>),
    PlaceZoomOut(Seq<char>),
}

impl View for RunningTransition {
    type V = RunningView;

    open spec fn view(&self) -> RunningView {
        match self {
            RunningTransition::Place => RunningView::Place,
            RunningTransition::Time => RunningView::Time,
            RunningTransition::Zoom { from, to } => RunningView::Zoom { from: from@, to: to@ },
            RunningTransition::ZoomIn(c) => RunningView::ZoomIn(c@),
            RunningTransition::ZoomOut(c) => RunningView::ZoomOut(c@),
            RunningTransition::PlaceZoomOut(c) => RunningView::PlaceZoomOut(c@),
        }
    }
}

/// A transition is in its first half while less than half its time has run.
pub open spec fn first_half(t: Timing) -> bool {
    t.duration_ms > 0 && 2 * t.elapsed_ms < t.duration_ms
}

/// The figure the zoomed sky draws: the figure zoomed into or out of; during
/// a pan the figure panned from in the first half and the one panned to in
/// the second; else the figure in view.
pub open spec fn zoom_render_spec(s: SelectionView, running: Option<(RunningView, Timing)>) -> Option<Seq<char>> {
    match running {
        Some((RunningView::ZoomIn(c), _)) => Some(c),
        Some((RunningView::ZoomOut(c), _)) => Some(c),
        Some((RunningView::PlaceZoomOut(c), _)) => Some(c),
        Some((RunningView::Zoom { from, to }, t)) => if first_half(t) {
            Some(from)
        } else {
            Some(to)
        },
        _ => selected_code_of(s),
    }
}

/// The sky is drawn zoomed while a figure is zoomed and while a zoom-out
/// runs.
pub open spec fn zoomed_sky_spec(s: SelectionView, running: Option<RunningView>) -> bool {
    s.1 || running matches Some(RunningView::ZoomOut(_)) || running matches Some(
        RunningView::PlaceZoomOut(_),
    )
}

impl Selection {
    /// The figure the zoomed sky draws, as `zoom_render_spec` says.
    pub fn zoom_render_code(&self, running: &Option<RunningTransition>, timing: Timing) -> (r: Option<String>)
        ensures
            match r {
                Some(c) => zoom_render_spec(
                    self@,
                    match running {
                        Some(k) => Some((k@, timing)),
                        None => None,
                    },
                ) == Some(c@),
                None => zoom_render_spec(
                    self@,
                    match running {
                        Some(k) => Some((k@, timing)),
                        None => None,
                    },
                ) is None,
            },
    {
        match running {
            Some(RunningTransition::ZoomIn(c)) => Some(c.clone()),
            Some(RunningTransition::ZoomOut(c)) => Some(c.clone()),
            Some(RunningTransition::PlaceZoomOut(c)) => Some(c.clone()),
            Some(RunningTransition::Zoom { from, to }) => {
                if timing.elapsed_ms < timing.duration_ms && timing.elapsed_ms < timing.duration_ms - timing.elapsed_ms {
                    Some(from.clone())
                } else {
                    Some(to.clone())
                }
            },
            _ => self.selected_code(),
        }
    }

    /// Whether the sky is drawn zoomed, as `zoomed_sky_spec` says.
    pub fn should_render_zoomed(&self, running: &Option<RunningTransition>) -> (r: bool)
        ensures
            r == zoomed_sky_spec(
                self@,
                match running {
                    Some(k) => Some(k@),
                    None => None,
                },
            ),
    {
        self.zoomed || match running {
            Some(RunningTransition::ZoomOut(_)) => true,
            Some(RunningTransition::PlaceZoomOut(_)) => true,
            _ => false,
        }
    }
}

} // verus!

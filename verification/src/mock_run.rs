//! A mock evaluation from its start to its end: what it asks for, and how it goes on.
use crate::data::{known_structure, source_notice};
use crate::disagreement::{
    DisagreementWorkspace, MockDisagreementResult, MockEvaluation, MockLayout, MockTrajectory,
    evaluates, frames_of, is_mock,
};
use crate::effects::{Effect, copy_effect};
use crate::report::FrameMeasure;
use crate::selection::DisagreementSettings;
use crate::structure::{Bounds, BoxBounds, DumpAtom, DumpFrame, Triple};
use crate::text::{Text, result_view, text2, text4, views};
use vstd::pervasive::unreached;
use vstd::prelude::*;

verus! {

/// A mock evaluation that is to be made.
pub struct MockJob<'a> {
    /// The project.
    pub project_dir: &'a str,
    /// The generation.
    pub generation: u32,
    /// The backend of the models.
    pub backend: &'a str,
    /// How many models the committee has.
    pub committee_members: usize,
    /// Which frames are selected.
    pub settings: &'a DisagreementSettings,
}

/// Something that a mock evaluation asks for.
#[derive(Debug)]
pub enum MockRequest<T> {
    /// Whether a path is a file.
    IsFile {
        /// The path.
        path: T,
    },
    /// The text of a file.
    Read {
        /// The file.
        path: T,
    },
    /// That something is done to files.
    Perform {
        /// What is to be done.
        effect: Effect<T>,
    },
}

impl<T: View> View for MockRequest<T> {
    type V = MockRequest<T::V>;

    open spec fn view(&self) -> MockRequest<T::V> {
        match self {
            MockRequest::IsFile { path } => MockRequest::IsFile { path: path@ },
            MockRequest::Read { path } => MockRequest::Read { path: path@ },
            MockRequest::Perform { effect } => MockRequest::Perform { effect: effect@ },
        }
    }
}

/// What a mock evaluation is told of what it asked for.
#[derive(Debug)]
pub enum MockReply {
    /// Whether the path is a file.
    IsFile(bool),
    /// The text of the file, or why it cannot be read.
    Text(Result<String, String>),
    /// Whether it was done, or why it could not be.
    Performed(Result<(), String>),
}

/// How far a mock evaluation has come: what it waits for.
pub enum MockStage {
    /// Whether there is a trajectory.
    Looking,
    /// The structure that the simulation started from.
    ReadingData,
    /// That a mock trajectory is written.
    WritingTrajectory,
    /// The trajectory.
    ReadingTrajectory,
    /// The input of the simulation.
    ReadingInput {
        /// The frames of the trajectory.
        frames: Vec<DumpFrame>,
    },
    /// That the results are written.
    Performing {
        /// What is to be done, in order.
        effects: Vec<Effect<String>>,
        /// How much of it was done.
        done: usize,
        /// What the evaluation comes to once it is all done.
        outcome: Result<MockDisagreementResult, String>,
    },
}

impl MockStage {
    /// Whether a reply is one to what the stage waits for.
    pub open spec fn awaits(self, reply: MockReply) -> bool {
        match self {
            MockStage::Looking => reply is IsFile,
            MockStage::ReadingData
            | MockStage::ReadingTrajectory
            | MockStage::ReadingInput { .. } => reply is Text,
            MockStage::WritingTrajectory => reply is Performed,
            MockStage::Performing { effects, done, .. } => reply is Performed && done
                < effects@.len(),
        }
    }

    /// Whether a reply is one to what the stage waits for.
    pub fn accepts(&self, reply: &MockReply) -> (r: bool)
        ensures
            r == self.awaits(*reply),
    {
        match (self, reply) {
            (MockStage::Looking, MockReply::IsFile(_)) => true,
            (MockStage::ReadingData, MockReply::Text(_)) => true,
            (MockStage::ReadingTrajectory, MockReply::Text(_)) => true,
            (MockStage::ReadingInput { .. }, MockReply::Text(_)) => true,
            (MockStage::WritingTrajectory, MockReply::Performed(_)) => true,
            (MockStage::Performing { effects, done, .. }, MockReply::Performed(_)) => {
                *done < effects.len()
            },
            _ => false,
        }
    }
}

/// What a mock evaluation comes to next.
pub enum MockProgress {
    /// It asks for something.
    Ask {
        /// What is said before.
        notices: Vec<String>,
        /// What it asks for.
        request: MockRequest<String>,
        /// How far it has come.
        stage: MockStage,
    },
    /// It is finished.
    Finished(MockDisagreementResult),
    /// It cannot be finished, and why.
    Failed(String),
}

impl MockProgress {
    /// Whether it asks for something, after something is said.
    pub open spec fn asks(self, notices: Seq<Text>, request: MockRequest<Text>) -> bool {
        self matches MockProgress::Ask { notices: said, request: asked, .. } && views(said@)
            == notices && asked@ == request
    }

    /// Whether it fails with an error.
    pub open spec fn fails(self, error: Text) -> bool {
        self matches MockProgress::Failed(e) && e@ == error
    }

    /// Whether it asks for the trajectory.
    pub open spec fn reads_trajectory(self, layout: MockLayout) -> bool {
        &&& self.asks(Seq::empty(), MockRequest::Read { path: layout.trajectory@ })
        &&& self->stage is ReadingTrajectory
    }

    /// Whether it asks that the mock trajectory is written that starts from a structure, of which
    /// `data` is the text, or why it cannot be read.
    pub open spec fn writes_trajectory<
        R: Fn(&BoxBounds) -> Bounds<String>,
        F: Fn(usize, &DumpAtom) -> Triple<String>,
    >(self, layout: MockLayout, data: Result<Text, Text>, render: R, displace: F) -> bool {
        let known = known_structure(data, layout.data@);
        &&& self->stage is WritingTrajectory
        &&& exists|mock: MockTrajectory|
            {
                &&& #[trigger] is_mock(mock, layout, data, render, displace)
                &&& self.asks(
                    match source_notice(known) {
                        Some(notice) => seq![notice],
                        None => Seq::empty(),
                    },
                    MockRequest::Perform { effect: mock.effect@ },
                )
            }
    }

    /// Whether it goes on with what is to be done, `done` of which was, and then comes to `outcome`.
    pub open spec fn performs(
        self,
        notices: Seq<Text>,
        effects: Seq<Effect<Text>>,
        done: int,
        outcome: Result<MockDisagreementResult, String>,
    ) -> bool {
        if done < effects.len() {
            &&& self.asks(notices, MockRequest::Perform { effect: effects[done] })
            &&& self->stage matches MockStage::Performing { effects: e, done: d, outcome: o }
            &&& views(e@) == effects
            &&& d == done
            &&& o == outcome
        } else {
            match outcome {
                Ok(result) => self == MockProgress::Finished(result),
                Err(e) => self == MockProgress::Failed(e),
            }
        }
    }
}

/// Whether a mock evaluation, whose files lie where `layout` says, may come from a stage to `r` with
/// a reply.
///
/// The trajectory that is read is the one that was found, or else the mock trajectory, once it has
/// been written. After something that cannot be done nothing is asked for.
pub open spec fn is_next<
    R: Fn(&BoxBounds) -> Bounds<String>,
    F: Fn(usize, &DumpAtom) -> Triple<String>,
    M: Fn(&DumpFrame, usize, &str, usize) -> FrameMeasure,
    P: Fn(&DumpFrame, &DumpAtom) -> Triple<String>,
>(
    job: MockJob,
    layout: MockLayout,
    stage: MockStage,
    reply: MockReply,
    render: R,
    displace: F,
    measure: M,
    place: P,
    r: MockProgress,
) -> bool {
    match (stage, reply) {
        (MockStage::Looking, MockReply::IsFile(found)) => if found {
            r.reads_trajectory(layout)
        } else {
            &&& r.asks(Seq::empty(), MockRequest::Read { path: layout.data@ })
            &&& r->stage is ReadingData
        },
        (MockStage::ReadingData, MockReply::Text(data)) => r.writes_trajectory(
            layout,
            result_view(data),
            render,
            displace,
        ),
        (MockStage::WritingTrajectory, MockReply::Performed(done)) => match done {
            Ok(_) => r.reads_trajectory(layout),
            Err(e) => r.fails(
                "Failed to write mock trajectory "@ + layout.trajectory@ + ": "@ + e@,
            ),
        },
        (MockStage::ReadingTrajectory, MockReply::Text(text)) => match frames_of(
            result_view(text),
            layout.trajectory@,
        ) {
            Ok(frames) => {
                &&& r.asks(Seq::empty(), MockRequest::Read { path: layout.input@ })
                &&& r->stage matches MockStage::ReadingInput { frames: read }
                &&& views(read@) == frames
            },
            Err(e) => r.fails(e),
        },
        (
            MockStage::ReadingInput { frames },
            MockReply::Text(input),
        ) => exists|evaluation: MockEvaluation|
            {
                &&& #[trigger] evaluates(
                    evaluation,
                    layout,
                    job.backend,
                    job.committee_members,
                    *job.settings,
                    views(frames@),
                    result_view(input),
                    measure,
                    place,
                )
                &&& r.performs(
                    views(evaluation.notices@),
                    views(evaluation.effects@),
                    0,
                    evaluation.outcome,
                )
            },
        (
            MockStage::Performing { effects, done, outcome },
            MockReply::Performed(result),
        ) => match result {
            Ok(_) => r.performs(Seq::empty(), views(effects@), done + 1, outcome),
            Err(e) => r.fails(views(effects@)[done as int].failure_text() + e@),
        },
        _ => false,
    }
}

/// Asks for the next thing to be done, where there is one.
fn perform_next(
    notices: Vec<String>,
    effects: Vec<Effect<String>>,
    done: usize,
    outcome: Result<MockDisagreementResult, String>,
) -> (r: MockProgress)
    ensures
        r.performs(views(notices@), views(effects@), done as int, outcome),
{
    if done < effects.len() {
        let effect = copy_effect(&effects[done]);
        assert(effect@ == views(effects@)[done as int]);
        MockProgress::Ask {
            notices,
            request: MockRequest::Perform { effect },
            stage: MockStage::Performing { effects, done, outcome },
        }
    } else {
        match outcome {
            Ok(result) => MockProgress::Finished(result),
            Err(e) => MockProgress::Failed(e),
        }
    }
}

/// Asks for something, with nothing said before.
fn ask(request: MockRequest<String>, stage: MockStage) -> (r: MockProgress)
    ensures
        r.asks(Seq::empty(), request@),
        r->stage == stage,
{
    let notices: Vec<String> = Vec::new();
    assert(views(notices@) =~= Seq::<Text>::empty());
    MockProgress::Ask { notices, request, stage }
}

impl<'a> MockJob<'a> {
    /// Whether the evaluation starts with `r`: it asks whether there is a trajectory. A committee of
    /// fewer than two members cannot disagree.
    pub open spec fn starts(self, r: MockProgress) -> bool {
        if self.committee_members < 2 {
            r.fails("Disagreement needs at least two committee members."@)
        } else {
            exists|layout: MockLayout|
                {
                    &&& #[trigger] layout.is_for(self.project_dir@, self.generation)
                    &&& r.asks(Seq::empty(), MockRequest::IsFile { path: layout.trajectory@ })
                    &&& r->stage is Looking
                }
        }
    }

    /// Whether the evaluation may come from a stage to `r` with a reply.
    pub open spec fn continues<
        R: Fn(&BoxBounds) -> Bounds<String>,
        F: Fn(usize, &DumpAtom) -> Triple<String>,
        M: Fn(&DumpFrame, usize, &str, usize) -> FrameMeasure,
        P: Fn(&DumpFrame, &DumpAtom) -> Triple<String>,
    >(
        self,
        stage: MockStage,
        reply: MockReply,
        render: R,
        displace: F,
        measure: M,
        place: P,
        r: MockProgress,
    ) -> bool {
        exists|layout: MockLayout| #[trigger]
            layout.is_for(self.project_dir@, self.generation) && is_next(
                self,
                layout,
                stage,
                reply,
                render,
                displace,
                measure,
                place,
                r,
            )
    }

    /// Starts the evaluation: asks whether there is a trajectory. A committee of fewer than two
    /// members cannot disagree.
    pub fn start(&self) -> (r: MockProgress)
        ensures
            self.starts(r),
    {
        match DisagreementWorkspace::mock_layout(
            self.project_dir,
            self.generation,
            self.committee_members,
        ) {
            Ok(layout) => {
                let path = layout.trajectory.clone();
                ask(MockRequest::IsFile { path }, MockStage::Looking)
            },
            Err(e) => MockProgress::Failed(e),
        }
    }

    /// Goes on with the evaluation. `render` says how a box is written in a mock trajectory, and
    /// `displace` how the coordinates of an atom are in the frame at a place; `measure` and `place`
    /// compute what is written of a frame and of its atoms.
    pub fn resume<
        R: Fn(&BoxBounds) -> Bounds<String>,
        F: Fn(usize, &DumpAtom) -> Triple<String>,
        M: Fn(&DumpFrame, usize, &str, usize) -> FrameMeasure,
        P: Fn(&DumpFrame, &DumpAtom) -> Triple<String>,
    >(
        &self,
        stage: MockStage,
        reply: MockReply,
        render: R,
        displace: F,
        measure: M,
        place: P,
    ) -> (r: MockProgress)
        requires
            stage.awaits(reply),
            forall|bounds: BoxBounds| #[trigger] call_requires(render, (&bounds,)),
            forall|i: usize, atom: DumpAtom| #[trigger] call_requires(displace, (i, &atom)),
            forall|frame: DumpFrame, i: usize| #[trigger]
                call_requires(measure, (&frame, i, self.backend, self.committee_members)),
            forall|frame: DumpFrame, atom: DumpAtom| #[trigger]
                call_requires(place, (&frame, &atom)),
        ensures
            self.continues(stage, reply, render, displace, measure, place, r),
    {
        let layout = MockLayout::new(self.project_dir, self.generation);
        let r = self.go_on(&layout, stage, reply, render, displace, measure, place);
        assert(layout.is_for(self.project_dir@, self.generation));
        r
    }

    /// Goes on with the evaluation, whose files lie where `layout` says.
    fn go_on<
        R: Fn(&BoxBounds) -> Bounds<String>,
        F: Fn(usize, &DumpAtom) -> Triple<String>,
        M: Fn(&DumpFrame, usize, &str, usize) -> FrameMeasure,
        P: Fn(&DumpFrame, &DumpAtom) -> Triple<String>,
    >(
        &self,
        layout: &MockLayout,
        stage: MockStage,
        reply: MockReply,
        render: R,
        displace: F,
        measure: M,
        place: P,
    ) -> (r: MockProgress)
        requires
            stage.awaits(reply),
            forall|bounds: BoxBounds| #[trigger] call_requires(render, (&bounds,)),
            forall|i: usize, atom: DumpAtom| #[trigger] call_requires(displace, (i, &atom)),
            forall|frame: DumpFrame, i: usize| #[trigger]
                call_requires(measure, (&frame, i, self.backend, self.committee_members)),
            forall|frame: DumpFrame, atom: DumpAtom| #[trigger]
                call_requires(place, (&frame, &atom)),
        ensures
            is_next(*self, *layout, stage, reply, render, displace, measure, place, r),
    {
        let trajectory = layout.trajectory.clone();
        match (stage, reply) {
            (MockStage::Looking, MockReply::IsFile(found)) => if found {
                ask(MockRequest::Read { path: trajectory }, MockStage::ReadingTrajectory)
            } else {
                ask(MockRequest::Read { path: layout.data.clone() }, MockStage::ReadingData)
            },
            (MockStage::ReadingData, MockReply::Text(data)) => write_mock(
                layout,
                &data,
                render,
                displace,
            ),
            (MockStage::WritingTrajectory, MockReply::Performed(done)) => match done {
                Ok(_) => ask(MockRequest::Read { path: trajectory }, MockStage::ReadingTrajectory),
                Err(e) => MockProgress::Failed(
                    text4("Failed to write mock trajectory ", trajectory.as_str(), ": ", e.as_str()),
                ),
            },
            (MockStage::ReadingTrajectory, MockReply::Text(text)) => {
                match DisagreementWorkspace::read_frames(&text, trajectory.as_str()) {
                    Ok(frames) => ask(
                        MockRequest::Read { path: layout.input.clone() },
                        MockStage::ReadingInput { frames },
                    ),
                    Err(e) => MockProgress::Failed(e),
                }
            },
            (MockStage::ReadingInput { frames }, MockReply::Text(input)) => {
                let evaluation = DisagreementWorkspace::evaluate_frames(
                    layout,
                    &frames,
                    self.backend,
                    self.committee_members,
                    self.settings,
                    &input,
                    measure,
                    place,
                );
                let ghost made = evaluation;
                let MockEvaluation { notices, effects, outcome } = evaluation;
                let r = perform_next(notices, effects, 0, outcome);
                proof {
                    assert(r.performs(
                        views(made.notices@),
                        views(made.effects@),
                        0,
                        made.outcome,
                    ));
                }
                r
            },
            (MockStage::Performing { effects, done, outcome }, MockReply::Performed(result)) => {
                match result {
                    Ok(_) => {
                        let notices: Vec<String> = Vec::new();
                        assert(views(notices@) =~= Seq::<Text>::empty());
                        let count: usize = effects.len();
                        assert(done < count);
                        perform_next(notices, effects, done + 1, outcome)
                    },
                    Err(e) => {
                        assert(views(effects@)[done as int] == effects@[done as int]@);
                        MockProgress::Failed(text2(effects[done].failure(), e.as_str()))
                    },
                }
            },
            _ => unreached(),
        }
    }
}

/// Asks that the mock trajectory is written that starts from a structure, of which `data` is the
/// text, or why it cannot be read.
fn write_mock<R: Fn(&BoxBounds) -> Bounds<String>, F: Fn(usize, &DumpAtom) -> Triple<String>>(
    layout: &MockLayout,
    data: &Result<String, String>,
    render: R,
    displace: F,
) -> (r: MockProgress)
    requires
        forall|bounds: BoxBounds| #[trigger] call_requires(render, (&bounds,)),
        forall|i: usize, atom: DumpAtom| #[trigger] call_requires(displace, (i, &atom)),
    ensures
        r.writes_trajectory(*layout, result_view(*data), render, displace),
{
    let mut notices: Vec<String> = Vec::new();
    let mock = DisagreementWorkspace::mock_trajectory(layout, data, render, displace);
    let ghost made = mock;
    assert(is_mock(made, *layout, result_view(*data), render, displace));
    let MockTrajectory { notice, effect } = mock;
    if let Some(notice) = notice {
        notices.push(notice);
        assert(views(notices@) =~= seq![notice@]);
    } else {
        assert(views(notices@) =~= Seq::<Text>::empty());
    }
    MockProgress::Ask {
        notices,
        request: MockRequest::Perform { effect },
        stage: MockStage::WritingTrajectory,
    }
}

} // verus!

//! The training loop as a state machine. The machine decides what comes next:
//! which batch to run, when an epoch ends, when the run is over. Its driver
//! carries out each action on the tensors and comes back for the next.

use vstd::prelude::*;
use crate::error::ConfigurationError;

verus! {

/// How long to train, and on how many samples at a time.
#[derive(Clone, Copy, Debug, PartialEq, Eq, Structural)]
pub struct TrainingConfig {
    pub epochs: usize,
    pub batch_size: usize,
}

/// One full batch: the samples `start..end` of the dataset, as batch `index`
/// of epoch `epoch`.
#[derive(Clone, Copy, Debug, PartialEq, Eq, Structural)]
pub struct Batch {
    pub epoch: usize,
    pub index: usize,
    /// First sample of the batch.
    pub start: usize,
    /// One past the last sample of the batch.
    pub end: usize,
}

/// Where the run stands.
#[derive(Clone, Copy, Debug, PartialEq, Eq, Structural)]
pub enum Phase {
    /// Nothing has run yet.
    Idle,
    /// Between batches of epoch `epoch`; `next_batch` batches of it are done.
    EpochRunning { epoch: usize, next_batch: usize },
    /// Batch `batch` of epoch `epoch` is with the driver.
    BatchRunning { epoch: usize, batch: usize },
    /// Every epoch has run.
    Done,
}

/// What the driver does before it asks again.
#[derive(Clone, Copy, Debug, PartialEq, Eq, Structural)]
pub enum Action {
    /// Nothing: ask again.
    Continue,
    /// Slice this batch, run forward, loss and backward on it, and let the
    /// optimizer update the parameters, once.
    RunBatch(Batch),
    /// The run is over.
    Stop,
}

/// The state of a run.
#[derive(Clone, Copy, Debug, PartialEq, Eq, Structural)]
pub struct TrainerState {
    pub epochs: usize,
    pub batch_size: usize,
    /// Number of samples in the dataset.
    pub samples: usize,
    pub phase: Phase,
    /// Batches that the driver has run to the end: the optimizer's step count.
    pub completed: u128,
}

impl TrainingConfig {
    /// Checks the hyperparameters of the loop: a batch holds at least one
    /// sample.
    pub fn validate(&self) -> (r: Result<(), ConfigurationError>)
        ensures
            r == if self.batch_size == 0 {
                Err::<(), ConfigurationError>(ConfigurationError::ZeroBatchSize)
            } else {
                Ok(())
            },
    {
        if self.batch_size == 0 {
            Err(ConfigurationError::ZeroBatchSize)
        } else {
            Ok(())
        }
    }
}

impl TrainerState {
    /// The state before anything has run.
    pub open spec fn initial(config: TrainingConfig, samples: usize) -> TrainerState {
        TrainerState {
            epochs: config.epochs,
            batch_size: config.batch_size,
            samples,
            phase: Phase::Idle,
            completed: 0,
        }
    }

    /// Full batches in one epoch. A trailing partial batch is not run.
    pub open spec fn batches_per_epoch(self) -> int {
        self.samples as int / self.batch_size as int
    }

    /// Full batches in the whole run.
    pub open spec fn total_batches(self) -> int {
        self.epochs * self.batches_per_epoch()
    }

    /// Batch `index` of epoch `epoch`: the half-open range of samples
    /// `[index * batch_size, (index + 1) * batch_size)`.
    pub open spec fn batch(self, epoch: usize, index: usize) -> Batch {
        Batch {
            epoch,
            index,
            start: (index * self.batch_size) as usize,
            end: ((index + 1) * self.batch_size) as usize,
        }
    }

    /// The state is one that a run can be in.
    pub open spec fn wf(self) -> bool {
        &&& self.batch_size >= 1
        &&& match self.phase {
            Phase::Idle => self.completed == 0,
            Phase::EpochRunning { epoch, next_batch } => {
                &&& epoch < self.epochs
                &&& next_batch <= self.batches_per_epoch()
                &&& self.completed == epoch * self.batches_per_epoch() + next_batch
            },
            Phase::BatchRunning { epoch, batch } => {
                &&& epoch < self.epochs
                &&& batch < self.batches_per_epoch()
                &&& self.completed == epoch * self.batches_per_epoch() + batch
            },
            Phase::Done => self.completed == self.total_batches(),
        }
    }

    /// The phase after one transition.
    pub open spec fn next_phase(self) -> Phase {
        match self.phase {
            Phase::Idle => if self.epochs == 0 {
                Phase::Done
            } else {
                Phase::EpochRunning { epoch: 0, next_batch: 0 }
            },
            Phase::EpochRunning { epoch, next_batch } => if next_batch < self.batches_per_epoch() {
                Phase::BatchRunning { epoch, batch: next_batch }
            } else if epoch + 1 < self.epochs {
                Phase::EpochRunning { epoch: (epoch + 1) as usize, next_batch: 0 }
            } else {
                Phase::Done
            },
            Phase::BatchRunning { epoch, batch } => Phase::EpochRunning {
                epoch,
                next_batch: (batch + 1) as usize,
            },
            Phase::Done => Phase::Done,
        }
    }

    /// The state after one transition. A batch counts as completed when the
    /// driver comes back from it.
    pub open spec fn next(self) -> TrainerState {
        TrainerState {
            epochs: self.epochs,
            batch_size: self.batch_size,
            samples: self.samples,
            phase: self.next_phase(),
            completed: if self.phase is BatchRunning {
                (self.completed + 1) as u128
            } else {
                self.completed
            },
        }
    }

    /// What the driver is told on the transition out of this state.
    pub open spec fn action(self) -> Action {
        match self.next_phase() {
            Phase::BatchRunning { epoch, batch } => Action::RunBatch(self.batch(epoch, batch)),
            Phase::Done => Action::Stop,
            _ => Action::Continue,
        }
    }

    /// Batches handed to the driver so far.
    pub open spec fn issued(self) -> int {
        if self.phase is BatchRunning {
            self.completed + 1
        } else {
            self.completed as int
        }
    }

    /// Epochs not yet finished.
    pub open spec fn epochs_left(self) -> int {
        match self.phase {
            Phase::Idle => self.epochs + 1,
            Phase::EpochRunning { epoch, next_batch } => self.epochs - epoch,
            Phase::BatchRunning { epoch, batch } => self.epochs - epoch,
            Phase::Done => 0,
        }
    }

    /// Batches of the current epoch not yet finished.
    pub open spec fn batches_left(self) -> int {
        match self.phase {
            Phase::EpochRunning { epoch, next_batch } => self.batches_per_epoch() - next_batch,
            Phase::BatchRunning { epoch, batch } => self.batches_per_epoch() - batch,
            _ => 0,
        }
    }

    /// The batches that the driver is handed from this state on, in order,
    /// until the run is over.
    pub open spec fn remaining_batches(self) -> Seq<Batch>
        decreases self.epochs_left(), self.batches_left(), (if self.phase is EpochRunning {
            1int
        } else {
            0int
        }),
    {
        if !self.wf() || self.phase is Done {
            Seq::empty()
        } else {
            match self.action() {
                Action::RunBatch(batch) => seq![batch] + self.next().remaining_batches(),
                _ => self.next().remaining_batches(),
            }
        }
    }
}

/// Two batches of a run with the same place in the run are the same batch.
proof fn lemma_place_unique(per_epoch: int, e1: int, i1: int, e2: int, i2: int)
    requires
        0 <= i1 < per_epoch,
        0 <= i2 < per_epoch,
        0 <= e1,
        0 <= e2,
        e1 * per_epoch + i1 == e2 * per_epoch + i2,
    ensures
        e1 == e2,
        i1 == i2,
{
    if e1 < e2 {
        assert((e1 + 1) * per_epoch <= e2 * per_epoch) by (nonlinear_arith)
            requires
                e1 + 1 <= e2,
                per_epoch >= 0,
        ;
        assert((e1 + 1) * per_epoch == e1 * per_epoch + per_epoch) by (nonlinear_arith);
    } else if e2 < e1 {
        assert((e2 + 1) * per_epoch <= e1 * per_epoch) by (nonlinear_arith)
            requires
                e2 + 1 <= e1,
                per_epoch >= 0,
        ;
        assert((e2 + 1) * per_epoch == e2 * per_epoch + per_epoch) by (nonlinear_arith);
    }
}

/// A batch of a run lies within the dataset.
pub proof fn lemma_batch_in_dataset(s: TrainerState, epoch: usize, index: usize)
    requires
        s.batch_size >= 1,
        index < s.batches_per_epoch(),
    ensures
        s.batch(epoch, index).start == index * s.batch_size,
        s.batch(epoch, index).end == s.batch(epoch, index).start + s.batch_size,
        s.batch(epoch, index).end <= s.samples,
{
    let per_epoch = s.batches_per_epoch();
    let size = s.batch_size as int;
    assert(per_epoch * size <= s.samples) by (nonlinear_arith)
        requires
            per_epoch == s.samples as int / size,
            size >= 1,
    ;
    assert((index + 1) * size <= per_epoch * size) by (nonlinear_arith)
        requires
            index + 1 <= per_epoch,
            size >= 1,
    ;
    assert((index + 1) * size == index * size + size) by (nonlinear_arith);
    assert(index * size >= 0) by (nonlinear_arith)
        requires
            index >= 0,
            size >= 1,
    ;
}

/// A transition leads from a state that a run can be in to another such
/// state, never past the total number of batches.
pub proof fn lemma_next_wf(s: TrainerState)
    requires
        s.wf(),
    ensures
        s.next().wf(),
        s.completed <= s.total_batches(),
        s.issued() <= s.total_batches(),
        s.next().issued() == s.issued() + (if s.action() is RunBatch {
            1int
        } else {
            0int
        }),
        s.total_batches() <= u64::MAX * u64::MAX,
{
    let per_epoch = s.batches_per_epoch();
    let epochs = s.epochs as int;
    assert(0 <= per_epoch <= s.samples) by (nonlinear_arith)
        requires
            per_epoch == s.samples as int / s.batch_size as int,
            s.batch_size >= 1,
    ;
    assert(epochs * per_epoch <= u64::MAX * u64::MAX) by (nonlinear_arith)
        requires
            0 <= epochs <= u64::MAX,
            0 <= per_epoch <= u64::MAX,
    ;
    assert(0 * per_epoch == 0) by (nonlinear_arith);
    match s.phase {
        Phase::Idle => {
            assert(epochs * per_epoch >= 0) by (nonlinear_arith)
                requires
                    epochs >= 0,
                    per_epoch >= 0,
            ;
        },
        Phase::EpochRunning { epoch, next_batch } => {
            assert((epoch + 1) * per_epoch == epoch * per_epoch + per_epoch) by (nonlinear_arith);
            assert((epoch + 1) * per_epoch <= epochs * per_epoch) by (nonlinear_arith)
                requires
                    epoch + 1 <= epochs,
                    per_epoch >= 0,
            ;
        },
        Phase::BatchRunning { epoch, batch } => {
            assert((epoch + 1) * per_epoch == epoch * per_epoch + per_epoch) by (nonlinear_arith);
            assert((epoch + 1) * per_epoch <= epochs * per_epoch) by (nonlinear_arith)
                requires
                    epoch + 1 <= epochs,
                    per_epoch >= 0,
            ;
        },
        Phase::Done => {},
    }
}

/// From any state of a run on, the driver is handed each batch that has not
/// been issued yet, once, in the order of epochs and of batches within an
/// epoch.
pub proof fn lemma_remaining_batches(s: TrainerState)
    requires
        s.wf(),
    ensures
        s.remaining_batches().len() == s.total_batches() - s.issued(),
        forall|epoch: usize, index: usize|
            epoch < s.epochs && index < s.batches_per_epoch() && epoch * s.batches_per_epoch()
                + index >= s.issued() ==> s.remaining_batches()[epoch * s.batches_per_epoch()
                + index - s.issued()] == #[trigger] s.batch(epoch, index),
    decreases s.epochs_left(), s.batches_left(), (if s.phase is EpochRunning {
        1int
    } else {
        0int
    }),
{
    let per_epoch = s.batches_per_epoch();
    lemma_next_wf(s);
    if s.phase is Done {
        assert forall|epoch: usize, index: usize|
            epoch < s.epochs && index < per_epoch && epoch * per_epoch + index
                >= s.issued() implies s.remaining_batches()[epoch * per_epoch + index - s.issued()]
            == #[trigger] s.batch(epoch, index) by {
            assert((epoch + 1) * per_epoch <= s.epochs * per_epoch) by (nonlinear_arith)
                requires
                    epoch + 1 <= s.epochs,
                    per_epoch >= 0,
            ;
            assert((epoch + 1) * per_epoch == epoch * per_epoch + per_epoch) by (nonlinear_arith);
        }
    } else {
        let t = s.next();
        lemma_remaining_batches(t);
        assert(t.batches_per_epoch() == per_epoch);
        assert(t.total_batches() == s.total_batches());
        assert forall|epoch: usize, index: usize|
            epoch < s.epochs && index < per_epoch && epoch * per_epoch + index
                >= s.issued() implies s.remaining_batches()[epoch * per_epoch + index - s.issued()]
            == #[trigger] s.batch(epoch, index) by {
            let place = epoch * per_epoch + index;
            assert((epoch + 1) * per_epoch <= s.epochs * per_epoch) by (nonlinear_arith)
                requires
                    epoch + 1 <= s.epochs,
                    per_epoch >= 0,
            ;
            assert((epoch + 1) * per_epoch == epoch * per_epoch + per_epoch) by (nonlinear_arith);
            assert(place < s.total_batches());
            assert(t.batch(epoch, index) == s.batch(epoch, index));
            match s.action() {
                Action::RunBatch(first) => {
                    let at = s.phase->EpochRunning_epoch;
                    let next_batch = s.phase->EpochRunning_next_batch;
                    assert(s.remaining_batches() == seq![first] + t.remaining_batches());
                    assert(t.issued() == s.issued() + 1);
                    if place == s.issued() {
                        lemma_place_unique(
                            per_epoch,
                            epoch as int,
                            index as int,
                            at as int,
                            next_batch as int,
                        );
                        assert(s.remaining_batches()[0] == first);
                    } else {
                        assert(s.remaining_batches()[place - s.issued()] == t.remaining_batches()[place
                            - t.issued()]);
                    }
                },
                _ => {
                    assert(s.remaining_batches() == t.remaining_batches());
                    assert(t.issued() == s.issued());
                },
            }
        }
    }
}

/// A run hands its driver `epochs * (samples / batch_size)` batches in all:
/// in each epoch, in order, the full batches `[i * batch_size, (i + 1) *
/// batch_size)` that lie within the dataset, and no partial batch.
pub proof fn lemma_run_schedule(config: TrainingConfig, samples: usize)
    requires
        config.batch_size >= 1,
    ensures
        ({
            let s = TrainerState::initial(config, samples);
            let per_epoch = samples as int / config.batch_size as int;
            &&& s.remaining_batches().len() == config.epochs * per_epoch
            &&& forall|epoch: usize, index: usize|
                epoch < config.epochs && index < per_epoch ==> {
                    let batch = #[trigger] s.batch(epoch, index);
                    &&& s.remaining_batches()[epoch * per_epoch + index] == batch
                    &&& batch.epoch == epoch
                    &&& batch.index == index
                    &&& batch.start == index * config.batch_size
                    &&& batch.end == (index + 1) * config.batch_size
                    &&& batch.end <= samples
                }
        }),
{
    let s = TrainerState::initial(config, samples);
    let per_epoch = samples as int / config.batch_size as int;
    lemma_remaining_batches(s);
    assert(0 <= per_epoch) by (nonlinear_arith)
        requires
            per_epoch == samples as int / config.batch_size as int,
            config.batch_size >= 1,
    ;
    assert forall|epoch: usize, index: usize| epoch < config.epochs && index < per_epoch implies ({
        let batch = #[trigger] s.batch(epoch, index);
        &&& s.remaining_batches()[epoch * per_epoch + index] == batch
        &&& batch.epoch == epoch
        &&& batch.index == index
        &&& batch.start == index * config.batch_size
        &&& batch.end == (index + 1) * config.batch_size
        &&& batch.end <= samples
    }) by {
        lemma_batch_in_dataset(s, epoch, index);
        assert(epoch * per_epoch >= 0) by (nonlinear_arith)
            requires
                epoch >= 0,
                per_epoch >= 0,
        ;
        assert((index + 1) * config.batch_size == index * config.batch_size + config.batch_size)
            by (nonlinear_arith);
    }
}

/// A dataset smaller than one batch gives a run without a batch, however
/// many epochs it has.
pub proof fn lemma_small_dataset_runs_nothing(config: TrainingConfig, samples: usize)
    requires
        config.batch_size >= 1,
        samples < config.batch_size,
    ensures
        TrainerState::initial(config, samples).remaining_batches().len() == 0,
{
    lemma_run_schedule(config, samples);
    assert(samples as int / config.batch_size as int == 0) by (nonlinear_arith)
        requires
            0 <= samples < config.batch_size,
    ;
    assert(config.epochs * 0 == 0) by (nonlinear_arith);
}

/// A run of the training loop.
pub struct Trainer {
    state: TrainerState,
}

impl View for Trainer {
    type V = TrainerState;

    closed spec fn view(&self) -> TrainerState {
        self.state
    }
}

impl Trainer {
    #[verifier::type_invariant]
    spec fn inv(self) -> bool {
        self.state.wf()
    }

    /// A run that has not started, over a dataset of `samples` samples.
    /// Refused where the batch size is zero.
    pub fn new(config: TrainingConfig, samples: usize) -> (r: Result<Trainer, ConfigurationError>)
        ensures
            match r {
                Ok(trainer) => config.batch_size >= 1 && trainer@ == TrainerState::initial(
                    config,
                    samples,
                ) && trainer@.wf(),
                Err(e) => config.batch_size == 0 && e == ConfigurationError::ZeroBatchSize,
            },
    {
        if config.batch_size == 0 {
            return Err(ConfigurationError::ZeroBatchSize);
        }
        Ok(
            Trainer {
                state: TrainerState {
                    epochs: config.epochs,
                    batch_size: config.batch_size,
                    samples,
                    phase: Phase::Idle,
                    completed: 0,
                },
            },
        )
    }

    /// The state of the run.
    pub fn state(&self) -> (s: TrainerState)
        ensures
            s == self@,
            s.wf(),
    {
        proof {
            use_type_invariant(self);
        }
        self.state
    }

    /// Full batches in one epoch: `samples / batch_size`, rounded down.
    pub fn batches_per_epoch(&self) -> (n: usize)
        ensures
            n == self@.batches_per_epoch(),
            n == self@.samples as int / self@.batch_size as int,
    {
        proof {
            use_type_invariant(self);
        }
        self.state.samples / self.state.batch_size
    }

    /// Whether the run is over.
    pub fn is_done(&self) -> (r: bool)
        ensures
            r == (self@.phase is Done),
            r ==> self@.completed == self@.total_batches(),
    {
        proof {
            use_type_invariant(self);
        }
        match self.state.phase {
            Phase::Done => true,
            _ => false,
        }
    }

    /// Makes one transition and says what the driver has to do before the
    /// next. Called first to start the run, and then each time the driver has
    /// carried out the action of the call before.
    pub fn step(&mut self) -> (action: Action)
        ensures
            old(self)@.wf(),
            final(self)@ == old(self)@.next(),
            final(self)@.wf(),
            action == old(self)@.action(),
            old(self)@.remaining_batches() == match action {
                Action::RunBatch(batch) => seq![batch] + final(self)@.remaining_batches(),
                _ => final(self)@.remaining_batches(),
            },
    {
        proof {
            use_type_invariant(&*self);
            lemma_next_wf(self.state);
        }
        let s = self.state;
        let per_epoch = s.samples / s.batch_size;
        let (phase, completed, action) = match s.phase {
            Phase::Idle => {
                if s.epochs == 0 {
                    (Phase::Done, s.completed, Action::Stop)
                } else {
                    (Phase::EpochRunning { epoch: 0, next_batch: 0 }, s.completed, Action::Continue)
                }
            },
            Phase::EpochRunning { epoch, next_batch } => {
                if next_batch < per_epoch {
                    proof {
                        lemma_batch_in_dataset(s, epoch, next_batch);
                    }
                    let start = next_batch * s.batch_size;
                    let batch = Batch {
                        epoch,
                        index: next_batch,
                        start,
                        end: start + s.batch_size,
                    };
                    (
                        Phase::BatchRunning { epoch, batch: next_batch },
                        s.completed,
                        Action::RunBatch(batch),
                    )
                } else if epoch + 1 < s.epochs {
                    (
                        Phase::EpochRunning { epoch: epoch + 1, next_batch: 0 },
                        s.completed,
                        Action::Continue,
                    )
                } else {
                    (Phase::Done, s.completed, Action::Stop)
                }
            },
            Phase::BatchRunning { epoch, batch } => {
                (
                    Phase::EpochRunning { epoch, next_batch: batch + 1 },
                    s.completed + 1,
                    Action::Continue,
                )
            },
            Phase::Done => (Phase::Done, s.completed, Action::Stop),
        };
        self.state = TrainerState {
            epochs: s.epochs,
            batch_size: s.batch_size,
            samples: s.samples,
            phase,
            completed,
        };
        action
    }
}

} // verus!

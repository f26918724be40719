//! Configuration of a training run: which metrics to follow, how long to
//! train, and where checkpoints go.
use crate::module::ADModule;
use vstd::prelude::*;
use vstd::string::*;

verus! {

/// Where a checkpointer writes, under which name, and how many
/// checkpoints it keeps.
#[derive(Debug, PartialEq, Eq)]
pub struct CheckpointerConfig {
    pub directory: String,
    pub name: String,
    pub num_keep: usize,
}

/// A checkpointer configuration, as the proofs see it.
pub struct CheckpointerSpec {
    pub directory: Seq<char>,
    pub name: Seq<char>,
    pub num_keep: usize,
}

impl View for CheckpointerConfig {
    type V = CheckpointerSpec;

    open spec fn view(&self) -> CheckpointerSpec {
        CheckpointerSpec { directory: self.directory@, name: self.name@, num_keep: self.num_keep }
    }
}

/// The view of a checkpointer configuration that may be absent.
pub open spec fn checkpointer_view(c: Option<CheckpointerConfig>) -> Option<CheckpointerSpec> {
    match c {
        Some(c) => Some(c@),
        None => None,
    }
}

/// The metrics that a run follows, and where their values are logged.
/// `T` is the type of a training metric, `V` that of a validation metric.
pub struct Dashboard<T, V> {
    pub metrics_train: Vec<T>,
    pub metrics_valid: Vec<V>,
    pub metrics_train_plot: Vec<T>,
    pub metrics_valid_plot: Vec<V>,
    pub logger_train: String,
    pub logger_valid: String,
}

/// A dashboard, as the proofs see it.
pub struct DashboardSpec<T, V> {
    pub train: Seq<T>,
    pub valid: Seq<V>,
    pub train_plot: Seq<T>,
    pub valid_plot: Seq<V>,
    pub logger_train: Seq<char>,
    pub logger_valid: Seq<char>,
}

impl<T, V> View for Dashboard<T, V> {
    type V = DashboardSpec<T, V>;

    open spec fn view(&self) -> DashboardSpec<T, V> {
        DashboardSpec {
            train: self.metrics_train@,
            valid: self.metrics_valid@,
            train_plot: self.metrics_train_plot@,
            valid_plot: self.metrics_valid_plot@,
            logger_train: self.logger_train@,
            logger_valid: self.logger_valid@,
        }
    }
}

impl<T, V> Dashboard<T, V> {
    /// A dashboard without metrics that logs to the two given directories.
    pub fn new(logger_train: String, logger_valid: String) -> (r: Self)
        ensures
            r@ == (DashboardSpec::<T, V> {
                train: Seq::empty(),
                valid: Seq::empty(),
                train_plot: Seq::empty(),
                valid_plot: Seq::empty(),
                logger_train: logger_train@,
                logger_valid: logger_valid@,
            }),
    {
        Dashboard {
            metrics_train: Vec::new(),
            metrics_valid: Vec::new(),
            metrics_train_plot: Vec::new(),
            metrics_valid_plot: Vec::new(),
            logger_train,
            logger_valid,
        }
    }

    pub fn register_train(&mut self, metric: T)
        ensures
            final(self)@ == (DashboardSpec { train: old(self)@.train.push(metric), ..old(self)@ }),
    {
        self.metrics_train.push(metric);
    }

    pub fn register_valid(&mut self, metric: V)
        ensures
            final(self)@ == (DashboardSpec { valid: old(self)@.valid.push(metric), ..old(self)@ }),
    {
        self.metrics_valid.push(metric);
    }

    pub fn register_train_plot(&mut self, metric: T)
        ensures
            final(self)@ == (DashboardSpec {
                train_plot: old(self)@.train_plot.push(metric),
                ..old(self)@
            }),
    {
        self.metrics_train_plot.push(metric);
    }

    pub fn register_valid_plot(&mut self, metric: V)
        ensures
            final(self)@ == (DashboardSpec {
                valid_plot: old(self)@.valid_plot.push(metric),
                ..old(self)@
            }),
    {
        self.metrics_valid_plot.push(metric);
    }
}

/// Struct to configure and create a [`Learner`].
pub struct LearnerBuilder<T, V> {
    pub dashboard: Dashboard<T, V>,
    pub checkpointer_model: Option<CheckpointerConfig>,
    pub checkpointer_optimizer: Option<CheckpointerConfig>,
    pub num_epochs: usize,
    pub checkpoint: Option<usize>,
    pub directory: String,
}

/// A builder, as the proofs see it.
pub struct BuilderSpec<T, V> {
    pub dashboard: DashboardSpec<T, V>,
    pub checkpointer_model: Option<CheckpointerSpec>,
    pub checkpointer_optimizer: Option<CheckpointerSpec>,
    pub num_epochs: usize,
    pub checkpoint: Option<usize>,
    pub directory: Seq<char>,
}

impl<T, V> View for LearnerBuilder<T, V> {
    type V = BuilderSpec<T, V>;

    open spec fn view(&self) -> BuilderSpec<T, V> {
        BuilderSpec {
            dashboard: self.dashboard@,
            checkpointer_model: checkpointer_view(self.checkpointer_model),
            checkpointer_optimizer: checkpointer_view(self.checkpointer_optimizer),
            num_epochs: self.num_epochs,
            checkpoint: self.checkpoint,
            directory: self.directory@,
        }
    }
}

/// Everything a training run needs: the model with its parameters
/// detached, the optimizer, and what the builder was told.
pub struct Learner<M, O, T, V> {
    pub model: M,
    pub optim: O,
    pub num_epochs: usize,
    pub callback: Dashboard<T, V>,
    pub checkpoint: Option<usize>,
    pub checkpointer_model: Option<CheckpointerConfig>,
    pub checkpointer_optimizer: Option<CheckpointerConfig>,
}

/// The path of the entry `leaf` of the directory `directory`.
pub fn child_path(directory: &str, leaf: &str) -> (r: String)
    ensures
        r@ == directory@ + "/"@ + leaf@,
{
    String::from_str(directory).concat("/").concat(leaf)
}

impl<T, V> LearnerBuilder<T, V> {
    /// A builder for a run of one epoch, without metrics or checkpoints,
    /// that logs below `directory`.
    pub fn new(directory: &str) -> (r: Self)
        ensures
            r@ == (BuilderSpec::<T, V> {
                dashboard: DashboardSpec {
                    train: Seq::empty(),
                    valid: Seq::empty(),
                    train_plot: Seq::empty(),
                    valid_plot: Seq::empty(),
                    logger_train: directory@ + "/"@ + "train"@,
                    logger_valid: directory@ + "/"@ + "valid"@,
                },
                checkpointer_model: None,
                checkpointer_optimizer: None,
                num_epochs: 1,
                checkpoint: None,
                directory: directory@,
            }),
    {
        let logger_train = child_path(directory, "train");
        let logger_valid = child_path(directory, "valid");
        LearnerBuilder {
            dashboard: Dashboard::new(logger_train, logger_valid),
            num_epochs: 1,
            checkpoint: None,
            checkpointer_model: None,
            checkpointer_optimizer: None,
            directory: String::from_str(directory),
        }
    }

    /// Register a training metric.
    pub fn metric_train(self, metric: T) -> (r: Self)
        ensures
            r@ == (BuilderSpec {
                dashboard: DashboardSpec {
                    train: self@.dashboard.train.push(metric),
                    ..self@.dashboard
                },
                ..self@
            }),
    {
        let mut this = self;
        this.dashboard.register_train(metric);
        this
    }

    /// Register a validation metric.
    pub fn metric_valid(self, metric: V) -> (r: Self)
        ensures
            r@ == (BuilderSpec {
                dashboard: DashboardSpec {
                    valid: self@.dashboard.valid.push(metric),
                    ..self@.dashboard
                },
                ..self@
            }),
    {
        let mut this = self;
        this.dashboard.register_valid(metric);
        this
    }

    /// Register a training metric and displays it on a plot.
    ///
    /// If the same metric is also registered for the validation split, the
    /// same graph will be used for both.
    pub fn metric_train_plot(self, metric: T) -> (r: Self)
        ensures
            r@ == (BuilderSpec {
                dashboard: DashboardSpec {
                    train_plot: self@.dashboard.train_plot.push(metric),
                    ..self@.dashboard
                },
                ..self@
            }),
    {
        let mut this = self;
        this.dashboard.register_train_plot(metric);
        this
    }

    /// Register a validation metric and displays it on a plot.
    ///
    /// If the same metric is also registered for the training split, the
    /// same graph will be used for both.
    pub fn metric_valid_plot(self, metric: V) -> (r: Self)
        ensures
            r@ == (BuilderSpec {
                dashboard: DashboardSpec {
                    valid_plot: self@.dashboard.valid_plot.push(metric),
                    ..self@.dashboard
                },
                ..self@
            }),
    {
        let mut this = self;
        this.dashboard.register_valid_plot(metric);
        this
    }

    /// The number of epochs the training should last.
    pub fn num_epochs(self, num_epochs: usize) -> (r: Self)
        ensures
            r@ == (BuilderSpec { num_epochs, ..self@ }),
    {
        let mut this = self;
        this.num_epochs = num_epochs;
        this
    }

    /// The epoch from which the training must resume.
    pub fn checkpoint(self, checkpoint: usize) -> (r: Self)
        ensures
            r@ == (BuilderSpec { checkpoint: Some(checkpoint), ..self@ }),
    {
        let mut this = self;
        this.checkpoint = Some(checkpoint);
        this
    }

    /// Register a checkpointer that will save the optimizer and the model
    /// states below the directory of the run.
    ///
    /// The number of checkpoints to be kept should be set to a minimum of
    /// two to be safe, since a crash during training might make a
    /// checkpoint non-usable.
    pub fn with_file_checkpointer(self, num_keep: usize) -> (r: Self)
        ensures
            r@ == (BuilderSpec {
                checkpointer_model: Some(
                    CheckpointerSpec {
                        directory: self@.directory + "/"@ + "checkpoint"@,
                        name: "model"@,
                        num_keep,
                    },
                ),
                checkpointer_optimizer: Some(
                    CheckpointerSpec {
                        directory: self@.directory + "/"@ + "checkpoint"@,
                        name: "optim"@,
                        num_keep,
                    },
                ),
                ..self@
            }),
    {
        let mut this = self;
        this.checkpointer_model = Some(
            CheckpointerConfig {
                directory: child_path(this.directory.as_str(), "checkpoint"),
                name: String::from_str("model"),
                num_keep,
            },
        );
        this.checkpointer_optimizer = Some(
            CheckpointerConfig {
                directory: child_path(this.directory.as_str(), "checkpoint"),
                name: String::from_str("optim"),
                num_keep,
            },
        );
        this
    }

    /// Create the [`Learner`] from a module and an optimizer.
    pub fn build<M: ADModule, O>(self, model: M, optim: O) -> (r: Learner<M, O, T, V>)
        ensures
            r.model.params() == model.params(),
            r.optim == optim,
            r.num_epochs == self@.num_epochs,
            r.callback@ == self@.dashboard,
            r.checkpoint == self@.checkpoint,
            checkpointer_view(r.checkpointer_model) == self@.checkpointer_model,
            checkpointer_view(r.checkpointer_optimizer) == self@.checkpointer_optimizer,
    {
        let model = model.detach();
        Learner {
            model,
            optim,
            num_epochs: self.num_epochs,
            callback: self.dashboard,
            checkpoint: self.checkpoint,
            checkpointer_model: self.checkpointer_model,
            checkpointer_optimizer: self.checkpointer_optimizer,
        }
    }
}

} // verus!

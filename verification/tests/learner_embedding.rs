use burn_tensor::data::Data;
use burn_tensor::dense::{DenseBackend, DenseDevice};
use burn_tensor::embedding::{Embedding, EmbeddingConfig};
use burn_tensor::module::{ADModule, Param};
use burn_tensor::learner::{child_path, CheckpointerConfig, Dashboard, LearnerBuilder};
use burn_tensor::ops::{Backend, TensorOps};
use burn_tensor::shape::Shape;

fn table() -> Embedding<DenseBackend> {
    let config = EmbeddingConfig::new(3, 2);
    let init = Data::new(vec![10, 11, 20, 21, 30, 31], Shape::new(vec![3, 2]));
    Embedding::new(&config, init, DenseDevice)
}

#[test]
fn embedding_config_keeps_its_sizes() {
    let config = EmbeddingConfig::new(5, 7);
    assert_eq!(config.n_embedding, 5);
    assert_eq!(config.d_model, 7);
}

#[test]
fn embedding_table_starts_from_the_given_values() {
    let layer = table();
    let weight = DenseBackend::to_data(&layer.weight.value);
    assert_eq!(weight.value, vec![10, 11, 20, 21, 30, 31]);
    assert_eq!(weight.shape, Shape::new(vec![3, 2]));
}

#[test]
fn embedding_forward_looks_rows_up() {
    let layer = table();
    let input = DenseBackend::from_data(
        Data::new(vec![1, 1, 0, 2], Shape::new(vec![2, 2])),
        DenseDevice,
    );
    let out = DenseBackend::to_data(&layer.forward(&input));
    assert_eq!(out.value, vec![20, 21, 20, 21, 10, 11, 30, 31]);
    assert_eq!(out.shape, Shape::new(vec![2, 2, 2]));
}

#[test]
fn embedding_detach_keeps_the_table() {
    let layer = table().detach();
    assert_eq!(DenseBackend::to_data(&layer.weight.value).value, vec![10, 11, 20, 21, 30, 31]);
}

#[test]
fn param_wraps_a_value() {
    assert_eq!(Param::new(7u8).value, 7);
}

#[test]
fn child_path_joins_with_a_slash() {
    assert_eq!(child_path("/tmp/run", "train"), "/tmp/run/train");
    assert_eq!(child_path("", "x"), "/x");
}

#[test]
fn builder_starts_with_one_epoch_and_no_checkpoint() {
    let builder = LearnerBuilder::<String, String>::new("/tmp/run");
    assert_eq!(builder.num_epochs, 1);
    assert_eq!(builder.checkpoint, None);
    assert_eq!(builder.checkpointer_model, None);
    assert_eq!(builder.checkpointer_optimizer, None);
    assert_eq!(builder.directory, "/tmp/run");
    assert_eq!(builder.dashboard.logger_train, "/tmp/run/train");
    assert_eq!(builder.dashboard.logger_valid, "/tmp/run/valid");
    assert!(builder.dashboard.metrics_train.is_empty());
    assert!(builder.dashboard.metrics_valid.is_empty());
    assert!(builder.dashboard.metrics_train_plot.is_empty());
    assert!(builder.dashboard.metrics_valid_plot.is_empty());
}

#[test]
fn builder_registers_metrics_in_order() {
    let builder = LearnerBuilder::<&str, u32>::new("run")
        .metric_train("loss")
        .metric_valid(1)
        .metric_train("accuracy")
        .metric_train_plot("loss")
        .metric_valid_plot(2)
        .metric_valid(3)
        .metric_valid_plot(4);
    assert_eq!(builder.dashboard.metrics_train, vec!["loss", "accuracy"]);
    assert_eq!(builder.dashboard.metrics_valid, vec![1, 3]);
    assert_eq!(builder.dashboard.metrics_train_plot, vec!["loss"]);
    assert_eq!(builder.dashboard.metrics_valid_plot, vec![2, 4]);
    assert_eq!(builder.num_epochs, 1);
    assert_eq!(builder.directory, "run");
}

#[test]
fn builder_sets_epochs_and_checkpoint() {
    let builder = LearnerBuilder::<u8, u8>::new("run").num_epochs(12).checkpoint(4);
    assert_eq!(builder.num_epochs, 12);
    assert_eq!(builder.checkpoint, Some(4));
    let builder = builder.num_epochs(3).checkpoint(0);
    assert_eq!(builder.num_epochs, 3);
    assert_eq!(builder.checkpoint, Some(0));
}

#[test]
fn builder_configures_file_checkpointers() {
    let builder = LearnerBuilder::<u8, u8>::new("/tmp/run").with_file_checkpointer(2);
    assert_eq!(
        builder.checkpointer_model,
        Some(CheckpointerConfig {
            directory: "/tmp/run/checkpoint".to_string(),
            name: "model".to_string(),
            num_keep: 2,
        })
    );
    assert_eq!(
        builder.checkpointer_optimizer,
        Some(CheckpointerConfig {
            directory: "/tmp/run/checkpoint".to_string(),
            name: "optim".to_string(),
            num_keep: 2,
        })
    );
    assert_eq!(builder.num_epochs, 1);
}

#[test]
fn builder_builds_a_learner() {
    let learner = LearnerBuilder::<&str, &str>::new("/tmp/run")
        .metric_train("loss")
        .metric_valid_plot("accuracy")
        .num_epochs(5)
        .checkpoint(2)
        .with_file_checkpointer(3)
        .build(table(), 17u32);
    assert_eq!(learner.optim, 17);
    assert_eq!(learner.num_epochs, 5);
    assert_eq!(learner.checkpoint, Some(2));
    assert_eq!(learner.callback.metrics_train, vec!["loss"]);
    assert_eq!(learner.callback.metrics_valid_plot, vec!["accuracy"]);
    assert_eq!(learner.callback.logger_train, "/tmp/run/train");
    assert_eq!(learner.checkpointer_model.unwrap().name, "model");
    assert_eq!(learner.checkpointer_optimizer.unwrap().num_keep, 3);
    assert_eq!(
        DenseBackend::to_data(&learner.model.weight.value).value,
        vec![10, 11, 20, 21, 30, 31]
    );
}

#[test]
fn builder_without_checkpointers_builds_without() {
    let learner = LearnerBuilder::<u8, u8>::new("run").build(table(), ());
    assert_eq!(learner.num_epochs, 1);
    assert_eq!(learner.checkpoint, None);
    assert!(learner.checkpointer_model.is_none());
    assert!(learner.checkpointer_optimizer.is_none());
}

#[test]
fn dashboard_registers_each_kind_apart() {
    let mut dashboard = Dashboard::<u8, u8>::new("a".to_string(), "b".to_string());
    dashboard.register_train(1);
    dashboard.register_valid(2);
    dashboard.register_train_plot(3);
    dashboard.register_valid_plot(4);
    dashboard.register_train(5);
    assert_eq!(dashboard.metrics_train, vec![1, 5]);
    assert_eq!(dashboard.metrics_valid, vec![2]);
    assert_eq!(dashboard.metrics_train_plot, vec![3]);
    assert_eq!(dashboard.metrics_valid_plot, vec![4]);
    assert_eq!(dashboard.logger_train, "a");
    assert_eq!(dashboard.logger_valid, "b");
}

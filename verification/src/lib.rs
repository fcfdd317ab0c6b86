//! Seismic event capture pipeline.
//!
//! A serial-attached sensor emits tri-axial samples as comma-separated text
//! lines. This library parses those lines into records, reconstructs a
//! monotonic 64-bit timestamp from the device's wrapping 32-bit counter,
//! fans records out to consumers, detects ground-motion events with a
//! per-channel delta-window trigger, and drives the pre/post-trigger
//! recording state machine. All of it is verified; the surrounding process
//! (serial port, files, signals, the floating-point smoothing filter) lives
//! outside this crate.

pub mod config;
pub mod eventrecorder;
pub mod pubsub;
pub mod record;
pub mod recordhandler;
pub mod runningrms;
pub mod seismometer;
pub mod statistics;
pub mod statisticsreporter;
pub mod triggerdetector;

pub use config::RawDataRecorderConfig;
pub use config::StatisticsConfig;
pub use eventrecorder::Detector;
pub use eventrecorder::EventRecorder;
pub use eventrecorder::RecordLog;
pub use eventrecorder::Writer;
pub use pubsub::PubSub;
pub use record::ParseError;
pub use record::ParseErrorKind;
pub use record::Record;
pub use recordhandler::RecordHandler;
pub use runningrms::RunningRMS;
pub use seismometer::Seismometer;
pub use seismometer::SeismometerError;
pub use statistics::Statistics;
pub use statisticsreporter::StatisticsReporter;
pub use statisticsreporter::StatsReport;
pub use triggerdetector::ChannelTriggerDetector;
pub use triggerdetector::TriggerDetector;

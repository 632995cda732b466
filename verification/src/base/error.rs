//! Error types for the monitoring system

use vstd::prelude::*;
use crate::base::text::{decimal, push_decimal, push_str};

verus! {

/// `std::io::Error`, carried by [`MonitoringError::IoError`].
#[verifier::external_type_specification]
#[verifier::external_body]
pub struct ExIoError(std::io::Error);

/// Errors that can occur in the monitoring system
#[derive(Debug)]
pub enum MonitoringError {
    /// Configuration error with component details
    ConfigError {
        /// Component that has configuration error
        component: String,
        /// Error message
        message: String,
    },
    /// Metric registration error with metric name
    RegistrationError {
        /// Name of the metric
        metric_name: String,
        /// Error message
        message: String,
    },
    /// Metric not found with name and labels
    MetricNotFound {
        /// Name of the metric
        name: String,
        /// Labels as string
        labels: String,
    },
    /// Invalid metric type with details
    InvalidMetricType {
        /// Name of the metric
        metric_name: String,
        /// Expected type
        expected: String,
        /// Found type
        found: String,
    },
    /// Invalid metric value with constraints
    InvalidValue {
        /// Name of the metric
        metric_name: String,
        /// Error message
        message: String,
    },
    /// Storage error with operation details
    StorageError {
        /// Operation being performed
        operation: String,
        /// Error message
        message: String,
    },
    /// Export error with format details
    ExportError {
        /// Export format (e.g., "Prometheus")
        format: String,
        /// Error message
        message: String,
    },
    /// Collection error with collector details
    CollectionError {
        /// Name of the collector
        collector: String,
        /// Error message
        message: String,
    },
    /// Alert error with alert name
    AlertError {
        /// Name of the alert
        alert_name: String,
        /// Error message
        message: String,
    },
    /// Metric already exists with full identification
    AlreadyExists {
        /// Name of the metric
        name: String,
        /// Labels as string
        labels: String,
    },
    /// Registry lock error
    LockError {
        /// Operation that failed to acquire lock
        operation: String,
    },
    /// Not initialized
    NotInitialized,
    /// Already initialized
    AlreadyInitialized,
    /// Cardinality limit exceeded
    CardinalityLimitExceeded {
        /// Maximum allowed cardinality
        limit: usize,
        /// Current cardinality
        current: usize,
    },
    /// IO error
    IoError(std::io::Error),
    /// General error
    Other(String),
}

/// The message of an error, as its display text reads (for every variant but
/// `IoError`, whose text comes from the operating system).
pub open spec fn error_text(e: MonitoringError) -> Seq<char> {
    match e {
        MonitoringError::ConfigError { component, message } => "Configuration error in "@
            + component@ + ": "@ + message@,
        MonitoringError::RegistrationError { metric_name, message } => "Failed to register metric '"@
            + metric_name@ + "': "@ + message@,
        MonitoringError::MetricNotFound { name, labels } => "Metric not found: "@ + name@
            + " (labels: "@ + labels@ + ")"@,
        MonitoringError::InvalidMetricType { metric_name, expected, found } =>
            "Invalid metric type for '"@ + metric_name@ + "': expected "@ + expected@ + ", found "@
            + found@,
        MonitoringError::InvalidValue { metric_name, message } => "Invalid metric value for '"@
            + metric_name@ + "': "@ + message@,
        MonitoringError::StorageError { operation, message } => "Storage error during "@
            + operation@ + ": "@ + message@,
        MonitoringError::ExportError { format, message } => "Export error to "@ + format@ + ": "@
            + message@,
        MonitoringError::CollectionError { collector, message } => "Collection error in "@
            + collector@ + ": "@ + message@,
        MonitoringError::AlertError { alert_name, message } => "Alert error for '"@ + alert_name@
            + "': "@ + message@,
        MonitoringError::AlreadyExists { name, labels } => "Metric already exists: "@ + name@
            + " (labels: "@ + labels@ + ")"@,
        MonitoringError::LockError { operation } => "Failed to acquire registry lock: "@
            + operation@,
        MonitoringError::NotInitialized => "Monitoring system not initialized"@,
        MonitoringError::AlreadyInitialized => "Monitoring system already initialized"@,
        MonitoringError::CardinalityLimitExceeded { limit, current } =>
            "Cardinality limit exceeded: limit="@ + decimal(limit as nat) + ", current="@ + decimal(
            current as nat,
        ) + ". Cannot create new metrics."@,
        MonitoringError::IoError(_) => "IO error: "@,
        MonitoringError::Other(message) => message@,
    }
}

fn owned(s: &str) -> (r: String)
    ensures
        r@ == s@,
{
    s.to_string()
}

impl MonitoringError {
    /// Create a configuration error
    pub fn config(component: &str, message: &str) -> (r: Self)
        ensures
            r matches MonitoringError::ConfigError { component: c, message: m } && c@ == component@
                && m@ == message@,
    {
        MonitoringError::ConfigError { component: owned(component), message: owned(message) }
    }

    /// Create a registration error
    pub fn registration(metric_name: &str, message: &str) -> (r: Self)
        ensures
            r matches MonitoringError::RegistrationError { metric_name: n, message: m } && n@
                == metric_name@ && m@ == message@,
    {
        MonitoringError::RegistrationError {
            metric_name: owned(metric_name),
            message: owned(message),
        }
    }

    /// Create a metric not found error
    pub fn not_found(name: &str, labels: &str) -> (r: Self)
        ensures
            r matches MonitoringError::MetricNotFound { name: n, labels: l } && n@ == name@ && l@
                == labels@,
    {
        MonitoringError::MetricNotFound { name: owned(name), labels: owned(labels) }
    }

    /// Create an invalid metric type error
    pub fn invalid_type(metric_name: &str, expected: &str, found: &str) -> (r: Self)
        ensures
            r matches MonitoringError::InvalidMetricType { metric_name: n, expected: e, found: f }
                && n@ == metric_name@ && e@ == expected@ && f@ == found@,
    {
        MonitoringError::InvalidMetricType {
            metric_name: owned(metric_name),
            expected: owned(expected),
            found: owned(found),
        }
    }

    /// Create an invalid value error
    pub fn invalid_value(metric_name: &str, message: &str) -> (r: Self)
        ensures
            r matches MonitoringError::InvalidValue { metric_name: n, message: m } && n@
                == metric_name@ && m@ == message@,
    {
        MonitoringError::InvalidValue { metric_name: owned(metric_name), message: owned(message) }
    }

    /// Create a storage error
    pub fn storage(operation: &str, message: &str) -> (r: Self)
        ensures
            r matches MonitoringError::StorageError { operation: o, message: m } && o@
                == operation@ && m@ == message@,
    {
        MonitoringError::StorageError { operation: owned(operation), message: owned(message) }
    }

    /// Create an export error
    pub fn export(format: &str, message: &str) -> (r: Self)
        ensures
            r matches MonitoringError::ExportError { format: f, message: m } && f@ == format@ && m@
                == message@,
    {
        MonitoringError::ExportError { format: owned(format), message: owned(message) }
    }

    /// Create a collection error
    pub fn collection(collector: &str, message: &str) -> (r: Self)
        ensures
            r matches MonitoringError::CollectionError { collector: c, message: m } && c@
                == collector@ && m@ == message@,
    {
        MonitoringError::CollectionError { collector: owned(collector), message: owned(message) }
    }

    /// Create an alert error
    pub fn alert(alert_name: &str, message: &str) -> (r: Self)
        ensures
            r matches MonitoringError::AlertError { alert_name: a, message: m } && a@ == alert_name@
                && m@ == message@,
    {
        MonitoringError::AlertError { alert_name: owned(alert_name), message: owned(message) }
    }

    /// Create an already exists error
    pub fn already_exists(name: &str, labels: &str) -> (r: Self)
        ensures
            r matches MonitoringError::AlreadyExists { name: n, labels: l } && n@ == name@ && l@
                == labels@,
    {
        MonitoringError::AlreadyExists { name: owned(name), labels: owned(labels) }
    }

    /// Create a lock error
    pub fn lock(operation: &str) -> (r: Self)
        ensures
            r matches MonitoringError::LockError { operation: o } && o@ == operation@,
    {
        MonitoringError::LockError { operation: owned(operation) }
    }

    /// Create a cardinality limit exceeded error
    pub fn cardinality_limit_exceeded(limit: usize, current: usize) -> (r: Self)
        ensures
            r == (MonitoringError::CardinalityLimitExceeded { limit, current }),
    {
        MonitoringError::CardinalityLimitExceeded { limit, current }
    }

    /// Create a generic error
    pub fn other(msg: &str) -> (r: Self)
        ensures
            r matches MonitoringError::Other(m) && m@ == msg@,
    {
        MonitoringError::Other(owned(msg))
    }

    /// The display text of this error.
    pub fn text(&self) -> (r: String)
        ensures
            !(self is IoError) ==> r@ == error_text(*self),
            self is IoError ==> r@.len() >= error_text(*self).len() && r@.subrange(
                0,
                error_text(*self).len() as int,
            ) == error_text(*self),
    {
        let mut out = String::new();
        match self {
            MonitoringError::ConfigError { component, message } => {
                push_str(&mut out, "Configuration error in ");
                push_str(&mut out, component.as_str());
                push_str(&mut out, ": ");
                push_str(&mut out, message.as_str());
            },
            MonitoringError::RegistrationError { metric_name, message } => {
                push_str(&mut out, "Failed to register metric '");
                push_str(&mut out, metric_name.as_str());
                push_str(&mut out, "': ");
                push_str(&mut out, message.as_str());
            },
            MonitoringError::MetricNotFound { name, labels } => {
                push_str(&mut out, "Metric not found: ");
                push_str(&mut out, name.as_str());
                push_str(&mut out, " (labels: ");
                push_str(&mut out, labels.as_str());
                push_str(&mut out, ")");
            },
            MonitoringError::InvalidMetricType { metric_name, expected, found } => {
                push_str(&mut out, "Invalid metric type for '");
                push_str(&mut out, metric_name.as_str());
                push_str(&mut out, "': expected ");
                push_str(&mut out, expected.as_str());
                push_str(&mut out, ", found ");
                push_str(&mut out, found.as_str());
            },
            MonitoringError::InvalidValue { metric_name, message } => {
                push_str(&mut out, "Invalid metric value for '");
                push_str(&mut out, metric_name.as_str());
                push_str(&mut out, "': ");
                push_str(&mut out, message.as_str());
            },
            MonitoringError::StorageError { operation, message } => {
                push_str(&mut out, "Storage error during ");
                push_str(&mut out, operation.as_str());
                push_str(&mut out, ": ");
                push_str(&mut out, message.as_str());
            },
            MonitoringError::ExportError { format, message } => {
                push_str(&mut out, "Export error to ");
                push_str(&mut out, format.as_str());
                push_str(&mut out, ": ");
                push_str(&mut out, message.as_str());
            },
            MonitoringError::CollectionError { collector, message } => {
                push_str(&mut out, "Collection error in ");
                push_str(&mut out, collector.as_str());
                push_str(&mut out, ": ");
                push_str(&mut out, message.as_str());
            },
            MonitoringError::AlertError { alert_name, message } => {
                push_str(&mut out, "Alert error for '");
                push_str(&mut out, alert_name.as_str());
                push_str(&mut out, "': ");
                push_str(&mut out, message.as_str());
            },
            MonitoringError::AlreadyExists { name, labels } => {
                push_str(&mut out, "Metric already exists: ");
                push_str(&mut out, name.as_str());
                push_str(&mut out, " (labels: ");
                push_str(&mut out, labels.as_str());
                push_str(&mut out, ")");
            },
            MonitoringError::LockError { operation } => {
                push_str(&mut out, "Failed to acquire registry lock: ");
                push_str(&mut out, operation.as_str());
            },
            MonitoringError::NotInitialized => {
                push_str(&mut out, "Monitoring system not initialized");
            },
            MonitoringError::AlreadyInitialized => {
                push_str(&mut out, "Monitoring system already initialized");
            },
            MonitoringError::CardinalityLimitExceeded { limit, current } => {
                push_str(&mut out, "Cardinality limit exceeded: limit=");
                push_decimal(&mut out, *limit as u128);
                push_str(&mut out, ", current=");
                push_decimal(&mut out, *current as u128);
                push_str(&mut out, ". Cannot create new metrics.");
            },
            MonitoringError::IoError(e) => {
                push_str(&mut out, "IO error: ");
                let detail = e.to_string();
                push_str(&mut out, detail.as_str());
            },
            MonitoringError::Other(message) => {
                push_str(&mut out, message.as_str());
            },
        }
        assert(!(self is IoError) ==> out@ =~= error_text(*self));
        out
    }
}

} // verus!

//! Metrics configuration values and the text helpers the exposition format
//! needs: gauge lines, help/type headers, and label escaping.

use vstd::prelude::*;

verus! {

use vstd::string::{StrSliceExecFns, StringExecFns};
use crate::text::push_char;
use crate::config::AppConfig;

/// Build information reported as a labelled gauge.
#[derive(Clone, Debug, PartialEq)]
pub struct BuildInfo {
    pub version: String,
}

/// The configuration gauges the process exports.
#[derive(Clone, Copy, Debug, PartialEq, Eq, Structural)]
pub struct ConfigMetrics {
    pub message_max_length: u16,
    pub file_max_size_bytes: u64,
    pub file_upload_enabled: bool,
    pub ip_limits_enabled: bool,
    pub body_limit_bytes: usize,
}

/// Serves the metrics endpoint: holds the configuration and the body
/// ceiling chosen at startup.
#[derive(Clone, Debug)]
pub struct MetricsServer {
    pub config: AppConfig,
    pub body_limit: usize,
}

impl MetricsServer {
    /// Builds the server from the startup configuration and body ceiling.
    pub fn new(config: AppConfig, body_limit: usize) -> (r: MetricsServer)
        ensures
            r.config == config,
            r.body_limit == body_limit,
    {
        MetricsServer { config, body_limit }
    }

    /// The configuration gauges of this process.
    pub fn config_metrics(&self) -> (r: ConfigMetrics)
        ensures
            r.message_max_length == self.config.message_max_length,
            r.file_max_size_bytes == self.config.file_max_size,
            r.file_upload_enabled == self.config.file_upload_enabled,
            r.ip_limits_enabled == (match self.config.ip_limits {
                Some(l) => l.enabled,
                None => false,
            }),
            r.body_limit_bytes == self.body_limit,
    {
        let ip_limits_enabled = match &self.config.ip_limits {
            Some(l) => l.enabled,
            None => false,
        };
        ConfigMetrics {
            message_max_length: self.config.message_max_length,
            file_max_size_bytes: self.config.file_max_size,
            file_upload_enabled: self.config.file_upload_enabled,
            ip_limits_enabled,
            body_limit_bytes: self.body_limit,
        }
    }
}

/// Renders a flag as the numeric gauge value 1 or 0.
pub fn bool_to_u8(value: bool) -> (r: u8)
    ensures
        r == (if value {
            1u8
        } else {
            0u8
        }),
{
    if value {
        1
    } else {
        0
    }
}

/// A label value with `\`, `"` and newline escaped.
pub open spec fn escape_label_spec(s: Seq<char>) -> Seq<char>
    decreases s.len(),
{
    if s.len() == 0 {
        Seq::<char>::empty()
    } else {
        escape_label_spec(s.drop_last()) + (if s.last() == '\\' {
            seq!['\\', '\\']
        } else if s.last() == '"' {
            seq!['\\', '"']
        } else if s.last() == '\n' {
            seq!['\\', 'n']
        } else {
            seq![s.last()]
        })
    }
}

/// Escapes a label value for the exposition format.
pub fn escape_label_value(value: &str) -> (r: String)
    ensures
        r@ == escape_label_spec(value@),
{
    let n = value.unicode_len();
    let mut escaped = String::new();
    let mut i: usize = 0;
    while i < n
        invariant
            0 <= i <= n,
            n == value@.len(),
            escaped@ == escape_label_spec(value@.take(i as int)),
        decreases n - i,
    {
        let c = value.get_char(i);
        proof {
            assert(value@.take(i + 1).drop_last() =~= value@.take(i as int));
            assert(value@.take(i + 1).last() == value@[i as int]);
        }
        if c == '\\' {
            escaped.append("\\\\");
        } else if c == '"' {
            escaped.append("\\\"");
        } else if c == '\n' {
            escaped.append("\\n");
        } else {
            push_char(&mut escaped, c);
        }
        proof {
            reveal_strlit("\\\\");
            reveal_strlit("\\\"");
            reveal_strlit("\\n");
            assert(escaped@ =~= escape_label_spec(value@.take(i + 1)));
        }
        i = i + 1;
    }
    proof {
        assert(value@.take(n as int) =~= value@);
    }
    escaped
}

/// Appends a metric's help and type header lines.
pub fn push_help_and_type(buffer: &mut String, name: &str, help: &str, metric_type: &str)
    ensures
        final(buffer)@ == old(buffer)@ + "# HELP "@ + name@ + " "@ + help@ + "\n# TYPE "@ + name@
            + " "@ + metric_type@ + "\n"@,
{
    buffer.append("# HELP ");
    buffer.append(name);
    buffer.append(" ");
    buffer.append(help);
    buffer.append("\n# TYPE ");
    buffer.append(name);
    buffer.append(" ");
    buffer.append(metric_type);
    buffer.append("\n");
}

/// Appends one gauge sample line, the value already rendered.
pub fn push_metric_line(buffer: &mut String, name: &str, value: &str)
    ensures
        final(buffer)@ == old(buffer)@ + name@ + " "@ + value@ + "\n"@,
{
    buffer.append(name);
    buffer.append(" ");
    buffer.append(value);
    buffer.append("\n");
}

} // verus!

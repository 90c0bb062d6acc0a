use vstd::prelude::*;

verus! {

/// Which part of a plugin script was running when a runtime failure occurred.
#[derive(Debug, Clone, PartialEq, Eq, Structural)]
pub enum ScriptPhase {
    /// The plugin's full script body, executed when the plugin is enabled.
    Body,
    /// The optional `on_enable` lifecycle callback.
    EnableHook,
    /// The optional `on_disable` lifecycle callback.
    DisableHook,
    /// A script-registered event listener callback.
    Listener,
}

/// The error taxonomy of the plugin subsystem.
#[derive(Debug)]
pub enum PluginError {
    /// The auto-enable store could not be read, parsed or written.
    ConfigIo { message: String },
    /// A plugin manifest could not be extracted, or a script failed to parse.
    ScriptParse { message: String },
    /// A script body or callback failed while running.
    ScriptRuntime { phase: ScriptPhase, message: String },
    /// A request/response operation got no answer within its bound.
    ProtocolTimeout,
    /// The command bus is gone or the worker is not able to serve requests.
    WorkerUnavailable,
    /// No plugin with the given name is registered.
    NotFound { name: String },
    /// A listener registration named an event type the bridge does not know.
    UnknownEventType { name: String },
}

impl PluginError {
    /// A short stable label for the error category, for user-visible status text.
    pub fn label(&self) -> (r: &'static str)
        ensures
            r@ == self.label_spec(),
    {
        match self {
            PluginError::ConfigIo { .. } => "config io error",
            PluginError::ScriptParse { .. } => "script parse error",
            PluginError::ScriptRuntime { .. } => "script runtime error",
            PluginError::ProtocolTimeout => "timed out",
            PluginError::WorkerUnavailable => "worker unreachable",
            PluginError::NotFound { .. } => "plugin not found",
            PluginError::UnknownEventType { .. } => "unknown event type",
        }
    }

    pub open spec fn label_spec(self) -> Seq<char> {
        match self {
            PluginError::ConfigIo { .. } => "config io error"@,
            PluginError::ScriptParse { .. } => "script parse error"@,
            PluginError::ScriptRuntime { .. } => "script runtime error"@,
            PluginError::ProtocolTimeout => "timed out"@,
            PluginError::WorkerUnavailable => "worker unreachable"@,
            PluginError::NotFound { .. } => "plugin not found"@,
            PluginError::UnknownEventType { .. } => "unknown event type"@,
        }
    }
}

} // verus!

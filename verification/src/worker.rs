use vstd::prelude::*;
use vstd::string::StringExecFns;
use crate::config::ConfigManager;
use crate::errors::PluginError;
use crate::runtime::{
    disable_all_calls, enable_rel, disable_rel, reload_one_post, sourced_by, LuaRuntime,
    PluginInfo, PluginSource,
};
use crate::text::{copy_names, names_view, remove_all_named};
use crate::trace::{count_of, HookCall};

verus! {

/// One operational request for the worker. The transport pairs each
/// request-style command with its own response channel; here a command is the
/// payload alone, and the worker answers with a `CommandResponse`.
#[derive(Clone, Debug)]
pub enum LuaCommand {
    Reload,
    GetPluginList,
    EnablePlugin { name: String },
    DisablePlugin { name: String },
    ReloadPlugin { name: String },
    GetPluginInfo { name: String },
    TriggerEvent { event_type: String, event_data: String },
}

/// The worker's answer to one command.
#[derive(Debug)]
pub enum CommandResponse {
    /// For the global reload.
    Completed(Result<(), PluginError>),
    /// For the plugin listing.
    PluginList(Vec<(String, bool)>),
    /// For enable, disable and single-plugin reload.
    Changed(Result<bool, PluginError>),
    /// For the plugin snapshot.
    Info(Option<PluginInfo>),
    /// For fire-and-forget event triggers, which get no response.
    Silent,
}

/// What one command's handling asks of the host: the response to deliver,
/// the full auto-enable store to rewrite when membership changed, and the
/// broadcasts scripts queued meanwhile.
#[derive(Debug)]
pub struct CommandOutcome {
    pub response: CommandResponse,
    pub config_to_save: Option<String>,
    pub broadcasts: Vec<String>,
}

/// What the global reload does. First every enabled plugin is disabled —
/// each `on_disable` that exists fires exactly once, in registry order — then
/// the registry is rebuilt from the directory snapshot, the auto-enable set
/// is re-read, and exactly its members are enabled: past the disable sweep
/// the history grows only by `on_enable` invocations of listed, registered
/// plugins, none more than once, exactly once for each that ends up enabled;
/// a plugin the reloaded set does not list ends up disabled with no hook
/// fired.
pub open spec fn reload_all_post(
    pre: LuaManager,
    post: LuaManager,
    sources: Seq<PluginSource>,
) -> bool {
    let base = pre.runtime.calls@ + disable_all_calls(pre.runtime.plugins@);
    let delta = post.runtime.calls@.skip(base.len() as int);
    post.runtime.calls@.len() >= base.len() && post.runtime.calls@.take(base.len() as int) == base
        && (exists|w: Seq<int>| sourced_by(post.runtime.plugins@, sources, w)) && (forall|j: int|
        0 <= j < delta.len() ==> (match #[trigger] delta[j] {
            HookCall::EnableOf { name } => post.config_manager.names().contains(name)
                && post.runtime.has_plugin(name),
            _ => false,
        })) && (forall|k: int|
        #![trigger post.runtime.plugins@[k]]
        0 <= k < post.runtime.plugins@.len() ==> {
            let n = post.runtime.plugins@[k].manifest.name@;
            let c = count_of(delta, HookCall::EnableOf { name: n });
            c <= 1 && (post.runtime.plugins@[k].enabled ==> c == (
            if post.runtime.plugins@[k].manifest.has_on_enable() {
                1int
            } else {
                0int
            })) && (!post.config_manager.names().contains(n)
                ==> !post.runtime.plugins@[k].enabled && c == 0)
        })
}

/// The worker's whole state: the runtime it exclusively owns, the in-memory
/// auto-enable set, whether startup completed, and the names holding host-side
/// registrations.
pub struct LuaManager {
    pub runtime: LuaRuntime,
    pub config_manager: ConfigManager,
    pub initialized: bool,
    pub registry_refs: Vec<String>,
}

impl LuaManager {
    pub open spec fn wf(self) -> bool {
        self.runtime.wf() && self.config_manager.wf()
    }

    /// A manager over a fresh runtime. `config_text` is the persisted
    /// auto-enable store as the host read it; None stands for a store that
    /// does not exist yet. Unreadable text is a configuration error.
    pub fn new(config_text: Option<&str>) -> (r: Result<LuaManager, PluginError>)
        ensures
            r matches Ok(m) ==> m.wf() && !m.initialized && m.runtime.plugins@
                == Seq::<crate::runtime::LuaPlugin>::empty() && m.runtime.calls@
                == Seq::<HookCall>::empty(),
            r matches Err(e) ==> e matches PluginError::ConfigIo { .. } && config_text is Some,
    {
        let config_manager = match config_text {
            Some(text) => match ConfigManager::from_json(text) {
                Ok(c) => c,
                Err(e) => {
                    return Err(e);
                },
            },
            None => ConfigManager::new(),
        };
        Ok(
            LuaManager {
                runtime: LuaRuntime::new(),
                config_manager,
                initialized: false,
                registry_refs: Vec::new(),
            },
        )
    }

    /// Records a host-side registration for a plugin name.
    pub fn register_plugin_ref(&mut self, plugin_name: &str)
        ensures
            *final(self) == (LuaManager { registry_refs: final(self).registry_refs, ..*old(self) }),
            names_view(final(self).registry_refs@) == names_view(old(self).registry_refs@).push(
                plugin_name@,
            ),
    {
        let ghost pre = names_view(self.registry_refs@);
        self.registry_refs.push(plugin_name.to_owned());
        proof {
            assert(names_view(self.registry_refs@) =~= pre.push(plugin_name@));
        }
    }

    /// Drops every host-side registration for a plugin name.
    pub fn clear_plugin_ref(&mut self, plugin_name: &str)
        ensures
            *final(self) == (LuaManager { registry_refs: final(self).registry_refs, ..*old(self) }),
            names_view(final(self).registry_refs@) == names_view(old(self).registry_refs@).filter(
                (|n: Seq<char>| n != plugin_name@),
            ),
    {
        remove_all_named(&mut self.registry_refs, plugin_name);
    }

    /// The names currently holding host-side registrations.
    pub fn get_registered_plugins(&self) -> (r: Vec<String>)
        ensures
            names_view(r@) == names_view(self.registry_refs@),
    {
        copy_names(&self.registry_refs)
    }

    /// Startup: install the API surface, mark the worker serviceable,
    /// discover the plugins the host found on disk, and enable the
    /// auto-enable set.
    pub fn startup(&mut self, sources: &Vec<PluginSource>) -> (r: Result<(), PluginError>)
        requires
            old(self).wf(),
        ensures
            final(self).wf(),
            final(self).config_manager == old(self).config_manager,
            r matches Ok(b) ==> final(self).initialized && (exists|w: Seq<int>|
                sourced_by(final(self).runtime.plugins@, sources@, w)),
            r matches Err(e) ==> e matches PluginError::ScriptRuntime { .. } && final(self).initialized == old(self).initialized,
    {
        match self.runtime.init_api() {
            Ok(()) => {},
            Err(e) => {
                return Err(e);
            },
        }
        self.initialized = true;
        self.runtime.discover_plugins(sources);
        let ghost m2 = *self;
        let auto = copy_names(&self.config_manager.config.enabled_plugins);
        self.runtime.load_enabled_plugins(&auto);
        proof {
            let w = choose|w: Seq<int>| sourced_by(m2.runtime.plugins@, sources@, w);
            assert(sourced_by(self.runtime.plugins@, sources@, w)) by {
                assert forall|k: int|
                    0 <= k < self.runtime.plugins@.len() implies 0 <= w[k] < sources@.len() && (
                #[trigger] self.runtime.plugins@[k]).file_path@ == sources@[w[k]].file_path@
                    && self.runtime.plugins@[k].script@ == sources@[w[k]].script@ by {
                    assert(self.runtime.plugins@[k] == m2.runtime.plugins@[k]
                        || self.runtime.plugins@[k] == (crate::runtime::LuaPlugin {
                        enabled: true,
                        ..m2.runtime.plugins@[k]
                    }));
                }
            }
        }
        Ok(())
    }

    /// Enable, as the worker runs it for one request: an unserviceable
    /// worker refuses; a name the registry does not know answers Ok(false)
    /// and touches nothing; otherwise the name joins the auto-enable set
    /// (when absent), the host-side registration is recorded, and the runtime
    /// enables the plugin — a runtime failure surfaces and drops the
    /// registration again, though the set keeps the name for the next
    /// startup. Besides the answer, reports whether set membership changed.
    pub fn enable_plugin(&mut self, name: &str) -> (r: (Result<bool, PluginError>, bool))
        requires
            old(self).wf(),
        ensures
            final(self).wf(),
            final(self).initialized == old(self).initialized,
            !old(self).initialized ==> (r.0 matches Err(e) && e matches
                PluginError::WorkerUnavailable) && *final(self) == *old(self) && !r.1,
            old(self).initialized && !old(self).runtime.has_plugin(name@) ==> (r.0 matches Ok(b)
                && !b) && *final(self) == *old(self) && !r.1,
            old(self).initialized && old(self).runtime.has_plugin(name@) ==> enable_rel(
                old(self).runtime,
                final(self).runtime,
                name@,
                r.0,
            ) && r.1 == !old(self).config_manager.names().contains(name@) && (r.1 ==> final(self).config_manager.names() == old(self).config_manager.names().push(name@)) && (!r.1
                ==> final(self).config_manager.names() == old(self).config_manager.names()) && (
            r.0 is Ok ==> names_view(final(self).registry_refs@) == names_view(
                old(self).registry_refs@,
            ).push(name@)) && (r.0 is Err ==> names_view(final(self).registry_refs@) == names_view(
                old(self).registry_refs@,
            ).push(name@).filter((|n: Seq<char>| n != name@))),
    {
        if !self.initialized {
            return (Err(PluginError::WorkerUnavailable), false);
        }
        if !self.runtime.contains_plugin(name) {
            return (Ok(false), false);
        }
        let changed = self.config_manager.enable_plugin(name.to_owned());
        self.register_plugin_ref(name);
        match self.runtime.enable_plugin(name) {
            Ok(b) => (Ok(b), changed),
            Err(e) => {
                self.clear_plugin_ref(name);
                (Err(e), changed)
            },
        }
    }

    /// Disable, as the worker runs it: an unserviceable worker refuses;
    /// otherwise the host-side registration is dropped and the runtime
    /// disables the plugin (unknown or already disabled names answer
    /// Ok(false) with no callback); on success the name also leaves the
    /// auto-enable set. Besides the answer, reports whether set membership
    /// changed.
    pub fn disable_plugin(&mut self, name: &str) -> (r: (Result<bool, PluginError>, bool))
        requires
            old(self).wf(),
        ensures
            final(self).wf(),
            final(self).initialized == old(self).initialized,
            !old(self).initialized ==> (r.0 matches Err(e) && e matches
                PluginError::WorkerUnavailable) && *final(self) == *old(self) && !r.1,
            old(self).initialized ==> disable_rel(
                old(self).runtime,
                final(self).runtime,
                name@,
                r.0,
            ) && names_view(final(self).registry_refs@) == names_view(
                old(self).registry_refs@,
            ).filter((|n: Seq<char>| n != name@)) && (r.0 is Ok ==> r.1 == old(self).config_manager.names().contains(name@) && final(self).config_manager.names() == old(self).config_manager.names().filter((|n: Seq<char>| n != name@))) && (r.0 is Err
                ==> final(self).config_manager == old(self).config_manager && !r.1),
    {
        if !self.initialized {
            return (Err(PluginError::WorkerUnavailable), false);
        }
        self.clear_plugin_ref(name);
        match self.runtime.disable_plugin(name) {
            Ok(b) => {
                let removed = self.config_manager.disable_plugin(name);
                (Ok(b), removed)
            },
            Err(e) => (Err(e), false),
        }
    }

    /// Single-plugin reload, as the worker runs it: an unserviceable worker
    /// refuses; otherwise the host-side registration is re-made on success
    /// and left dropped on failure, and the runtime round-trips the plugin
    /// from the given directory snapshot.
    pub fn reload_plugin(&mut self, name: &str, sources: &Vec<PluginSource>) -> (r: Result<
        bool,
        PluginError,
    >)
        requires
            old(self).wf(),
        ensures
            final(self).wf(),
            final(self).initialized == old(self).initialized,
            !old(self).initialized ==> (r matches Err(e) && e matches
                PluginError::WorkerUnavailable) && *final(self) == *old(self),
            old(self).initialized ==> reload_one_post(
                old(self).runtime,
                final(self).runtime,
                name@,
                r,
            ) && final(self).config_manager == old(self).config_manager,
    {
        if !self.initialized {
            return Err(PluginError::WorkerUnavailable);
        }
        self.clear_plugin_ref(name);
        match self.runtime.reload_plugin(name, sources) {
            Ok(b) => {
                self.register_plugin_ref(name);
                Ok(b)
            },
            Err(e) => Err(e),
        }
    }

    /// Global reload, as the worker runs it: an unserviceable worker
    /// refuses; otherwise every enabled plugin is disabled, the registry is
    /// rebuilt from the snapshot, the auto-enable store is re-read (a store
    /// that does not parse is the surfaced error — the remaining stages still
    /// run, with the set kept from memory), and the set's members are
    /// enabled.
    pub fn reload_all(&mut self, sources: &Vec<PluginSource>, config_text: Option<&str>) -> (r:
        Result<(), PluginError>)
        requires
            old(self).wf(),
        ensures
            final(self).wf(),
            final(self).initialized == old(self).initialized,
            !old(self).initialized ==> (r matches Err(e) && e matches
                PluginError::WorkerUnavailable) && *final(self) == *old(self),
            old(self).initialized ==> reload_all_post(*old(self), *final(self), sources@) && (
            match config_text {
                Some(t) => (r is Err <==> crate::json_ffi::json_string_list_field(
                    t@,
                    "enabled_plugins"@,
                ) is None) && (r is Err ==> final(self).config_manager == old(self).config_manager),
                None => r is Ok && final(self).config_manager == old(self).config_manager,
            }) && (r matches Err(e) ==> e matches PluginError::ConfigIo { .. }),
    {
        if !self.initialized {
            return Err(PluginError::WorkerUnavailable);
        }
        let ghost pre = *self;
        self.registry_refs = Vec::new();
        self.runtime.disable_all_plugins();
        self.runtime.discover_plugins(sources);
        let ghost m2 = *self;
        let config_err: Option<PluginError> = match config_text {
            Some(text) => match ConfigManager::from_json(text) {
                Ok(c) => {
                    self.config_manager = c;
                    None
                },
                Err(e) => Some(e),
            },
            None => None,
        };
        let ghost m3 = *self;
        let auto = copy_names(&self.config_manager.config.enabled_plugins);
        self.runtime.load_enabled_plugins(&auto);
        proof {
            let base = pre.runtime.calls@ + disable_all_calls(pre.runtime.plugins@);
            assert(m3.runtime.calls@ == base);
            assert(self.runtime.calls@.take(base.len() as int) =~= base);
            assert(names_view(auto@) == self.config_manager.names());
            // The registry the snapshot produced survives the enable pass
            // (only enabled flags move), so the same witnesses serve.
            let w = choose|w: Seq<int>| sourced_by(m2.runtime.plugins@, sources@, w);
            assert(sourced_by(self.runtime.plugins@, sources@, w)) by {
                assert forall|k: int|
                    0 <= k < self.runtime.plugins@.len() implies 0 <= w[k] < sources@.len() && (
                #[trigger] self.runtime.plugins@[k]).file_path@ == sources@[w[k]].file_path@
                    && self.runtime.plugins@[k].script@ == sources@[w[k]].script@ by {
                    assert(self.runtime.plugins@[k] == m3.runtime.plugins@[k]
                        || self.runtime.plugins@[k] == (crate::runtime::LuaPlugin {
                        enabled: true,
                        ..m3.runtime.plugins@[k]
                    }));
                }
            }
            let delta = self.runtime.calls@.skip(base.len() as int);
            // Each record of the rebuilt registry starts disabled, so the
            // per-plugin facts of the enable pass carry over directly.
            assert forall|j: int| 0 <= j < delta.len() implies (match #[trigger] delta[j] {
                HookCall::EnableOf { name } => self.config_manager.names().contains(name)
                    && self.runtime.has_plugin(name),
                _ => false,
            }) by {
                match delta[j] {
                    HookCall::EnableOf { name } => {
                        assert(m3.runtime.has_plugin(name));
                        let i = choose|i: int|
                            0 <= i < m3.runtime.plugins@.len() && (
                            #[trigger] m3.runtime.plugins@[i]).manifest.name@ == name;
                        assert(crate::runtime::plugin_names(m3.runtime.plugins@)[i] == name);
                        assert(crate::runtime::plugin_names(self.runtime.plugins@)[i] == name);
                        assert(self.runtime.plugins@[i].manifest.name@ == name);
                        assert(self.runtime.has_plugin(name));
                    },
                    _ => {},
                }
            }
            assert forall|k: int|
                #![trigger self.runtime.plugins@[k]]
                0 <= k < self.runtime.plugins@.len() implies {
                let n = self.runtime.plugins@[k].manifest.name@;
                let c = count_of(delta, HookCall::EnableOf { name: n });
                c <= 1 && (self.runtime.plugins@[k].enabled ==> c == (
                if self.runtime.plugins@[k].manifest.has_on_enable() {
                    1int
                } else {
                    0int
                })) && (!self.config_manager.names().contains(n)
                    ==> !self.runtime.plugins@[k].enabled && c == 0)
            } by {
                assert(m3.runtime.plugins@[k] == m3.runtime.plugins@[k]);
                assert(!m3.runtime.plugins@[k].enabled);
                assert(self.runtime.plugins@[k] == m3.runtime.plugins@[k]
                    || self.runtime.plugins@[k] == (crate::runtime::LuaPlugin {
                    enabled: true,
                    ..m3.runtime.plugins@[k]
                }));
            }
        }
        match config_err {
            Some(e) => Err(e),
            None => Ok(()),
        }
    }

    /// One command, handled to completion, strictly before the next: the
    /// worker mutates its state, prepares the response, says whether the
    /// auto-enable store must be rewritten (and with what), and hands over
    /// whatever scripts queued for broadcast meanwhile.
    pub fn handle_command(
        &mut self,
        cmd: LuaCommand,
        sources: &Vec<PluginSource>,
        config_text: Option<&str>,
    ) -> (r: CommandOutcome)
        requires
            old(self).wf(),
        ensures
            final(self).wf(),
            (r.config_to_save matches Some(t) ==> t@ == crate::json_ffi::json_list_text(
                "enabled_plugins"@,
                final(self).config_manager.names(),
            )),
            match cmd {
                LuaCommand::Reload => r.response matches CommandResponse::Completed(res) && (!old(self).initialized ==> (res matches Err(e) && e matches PluginError::WorkerUnavailable)
                    && final(self).runtime == old(self).runtime) && (old(self).initialized
                    ==> reload_all_post(*old(self), *final(self), sources@)),
                LuaCommand::GetPluginList => r.response matches CommandResponse::PluginList(l)
                    && *final(self) == *old(self) && l@.len() == old(self).runtime.plugins@.len()
                    && (forall|k: int|
                    0 <= k < l@.len() ==> (#[trigger] l@[k]).0@ == old(self).runtime.plugins@[k].manifest.name@ && l@[k].1 == old(self).runtime.plugins@[k].enabled),
                LuaCommand::EnablePlugin { name } => r.response matches CommandResponse::Changed(
                    res,
                ) && (!old(self).initialized ==> (res matches Err(e) && e matches
                    PluginError::WorkerUnavailable) && final(self).runtime == old(self).runtime)
                    && (old(self).initialized && !old(self).runtime.has_plugin(name@) ==> (res
                    matches Ok(b) && !b) && final(self).runtime == old(self).runtime) && (old(self).initialized && old(self).runtime.has_plugin(name@) ==> enable_rel(
                    old(self).runtime,
                    final(self).runtime,
                    name@,
                    res,
                )),
                LuaCommand::DisablePlugin { name } => r.response matches CommandResponse::Changed(
                    res,
                ) && (!old(self).initialized ==> (res matches Err(e) && e matches
                    PluginError::WorkerUnavailable) && final(self).runtime == old(self).runtime)
                    && (old(self).initialized ==> disable_rel(
                    old(self).runtime,
                    final(self).runtime,
                    name@,
                    res,
                )),
                LuaCommand::ReloadPlugin { name } => r.response matches CommandResponse::Changed(
                    res,
                ) && (!old(self).initialized ==> (res matches Err(e) && e matches
                    PluginError::WorkerUnavailable) && final(self).runtime == old(self).runtime)
                    && (old(self).initialized ==> reload_one_post(
                    old(self).runtime,
                    final(self).runtime,
                    name@,
                    res,
                )),
                LuaCommand::GetPluginInfo { name } => r.response matches CommandResponse::Info(o)
                    && *final(self) == *old(self) && (!old(self).initialized ==> o is None) && (
                old(self).initialized ==> ((o is Some <==> old(self).runtime.has_plugin(name@)) && (
                o matches Some(info) ==> info.0@ == name@ && info.4 == old(self).runtime.is_enabled(
                    name@,
                )))),
                LuaCommand::TriggerEvent { event_type, event_data } => r.response matches
                    CommandResponse::Silent && r.config_to_save is None && (!old(self).initialized
                    ==> *final(self) == *old(self)) && (old(self).initialized
                    ==> crate::runtime::dispatch_post(
                    old(self).runtime,
                    final(self).runtime,
                    event_type@,
                    event_data@,
                ) && final(self).config_manager == old(self).config_manager),
            },
    {
        match cmd {
            LuaCommand::Reload => {
                let res = self.reload_all(sources, config_text);
                let broadcasts = self.runtime.drain_outbox();
                CommandOutcome {
                    response: CommandResponse::Completed(res),
                    config_to_save: None,
                    broadcasts,
                }
            },
            LuaCommand::GetPluginList => {
                let l = self.runtime.get_plugin_list();
                let broadcasts = self.runtime.drain_outbox();
                CommandOutcome {
                    response: CommandResponse::PluginList(l),
                    config_to_save: None,
                    broadcasts,
                }
            },
            LuaCommand::EnablePlugin { name } => {
                let (res, changed) = self.enable_plugin(name.as_str());
                let config_to_save = if changed {
                    Some(self.config_manager.to_json())
                } else {
                    None
                };
                let broadcasts = self.runtime.drain_outbox();
                CommandOutcome {
                    response: CommandResponse::Changed(res),
                    config_to_save,
                    broadcasts,
                }
            },
            LuaCommand::DisablePlugin { name } => {
                let (res, changed) = self.disable_plugin(name.as_str());
                let config_to_save = if changed {
                    Some(self.config_manager.to_json())
                } else {
                    None
                };
                let broadcasts = self.runtime.drain_outbox();
                CommandOutcome {
                    response: CommandResponse::Changed(res),
                    config_to_save,
                    broadcasts,
                }
            },
            LuaCommand::ReloadPlugin { name } => {
                let res = self.reload_plugin(name.as_str(), sources);
                let broadcasts = self.runtime.drain_outbox();
                CommandOutcome {
                    response: CommandResponse::Changed(res),
                    config_to_save: None,
                    broadcasts,
                }
            },
            LuaCommand::GetPluginInfo { name } => {
                let o = if self.initialized {
                    self.runtime.get_plugin_info(name.as_str())
                } else {
                    None
                };
                let broadcasts = self.runtime.drain_outbox();
                CommandOutcome {
                    response: CommandResponse::Info(o),
                    config_to_save: None,
                    broadcasts,
                }
            },
            LuaCommand::TriggerEvent { event_type, event_data } => {
                if self.initialized {
                    self.runtime.dispatch_event(event_type.as_str(), event_data.as_str());
                }
                let broadcasts = self.runtime.drain_outbox();
                CommandOutcome {
                    response: CommandResponse::Silent,
                    config_to_save: None,
                    broadcasts,
                }
            },
        }
    }
}

} // verus!

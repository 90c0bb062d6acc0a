use vstd::prelude::*;
use crate::errors::{PluginError, ScriptPhase};
use crate::events::{event_type_of, parse_event_type, EventType, Listener, ListenerSet};
use crate::json_ffi::{json_bool_field, json_i64_field, json_str_field, json_u32_field};
use crate::lua_ffi::{
    lua_call_unit, lua_call_with_table, lua_error_message, lua_exec_chunk, lua_global_i64,
    lua_global_string, lua_global_table, lua_new, table_clear, table_string_values,
};
use crate::payload::{
    build_block_break_table, build_block_place_table, build_player_chat_table,
    build_player_join_table, build_player_leave_table, decode_block_break, decode_block_place,
    decode_player_chat, decode_player_join, decode_player_leave,
};
use crate::manifest::{extract_manifest, LuaPluginManifest};
use crate::text::{distinct_seqs, names_view, str_eq};
use crate::trace::{count_of, HookCall};

verus! {

/// One plugin file as the host found it on disk: where it lives and what it
/// held when it was read.
pub struct PluginSource {
    pub file_path: String,
    pub script: String,
}

/// One discovered plugin: its manifest, where it came from, the script text
/// it was discovered with, and whether its callbacks are live.
pub struct LuaPlugin {
    pub manifest: LuaPluginManifest,
    pub file_path: String,
    pub script: String,
    pub enabled: bool,
}

/// `w` names, for each record, the source it was registered from: every
/// record's path and script are that source's.
pub open spec fn sourced_by(recs: Seq<LuaPlugin>, sources: Seq<PluginSource>, w: Seq<int>) -> bool {
    w.len() == recs.len() && forall|k: int|
        #![trigger recs[k]]
        0 <= k < recs.len() ==> 0 <= w[k] < sources.len() && recs[k].file_path@
            == sources[w[k]].file_path@ && recs[k].script@ == sources[w[k]].script@
}

/// The names of a sequence of records, in registry order.
pub open spec fn plugin_names(s: Seq<LuaPlugin>) -> Seq<Seq<char>> {
    s.map_values(|p: LuaPlugin| p.manifest.name@)
}

/// The single interpreter instance together with the plugin registry, the
/// event listener collections and the ghost history of callback invocations.
pub struct LuaRuntime {
    pub lua: mlua::Lua,
    pub plugins: Vec<LuaPlugin>,
    pub listeners: ListenerSet,
    pub calls: Ghost<Seq<HookCall>>,
}

impl LuaRuntime {
    /// Well-formed: registry names unique, listener ids unique per type.
    pub open spec fn wf(self) -> bool {
        distinct_seqs(plugin_names(self.plugins@)) && self.listeners.wf()
    }

    /// A plugin of this name is registered.
    pub open spec fn has_plugin(self, name: Seq<char>) -> bool {
        exists|i: int|
            0 <= i < self.plugins@.len() && (#[trigger] self.plugins@[i]).manifest.name@ == name
    }

    /// The registry position of the plugin of this name (unique under wf).
    pub open spec fn idx_of(self, name: Seq<char>) -> int {
        choose|i: int|
            0 <= i < self.plugins@.len() && (#[trigger] self.plugins@[i]).manifest.name@ == name
    }

    /// The record of the plugin of this name.
    pub open spec fn plugin_named(self, name: Seq<char>) -> LuaPlugin {
        self.plugins@[self.idx_of(name)]
    }

    /// The plugin of this name is registered and enabled.
    pub open spec fn is_enabled(self, name: Seq<char>) -> bool {
        self.has_plugin(name) && self.plugin_named(name).enabled
    }

    /// Under unique names, a position holding `name` is the position of
    /// `name`.
    pub proof fn lemma_idx_is(self, i: int, name: Seq<char>)
        requires
            distinct_seqs(plugin_names(self.plugins@)),
            0 <= i < self.plugins@.len(),
            self.plugins@[i].manifest.name@ == name,
        ensures
            self.has_plugin(name),
            self.idx_of(name) == i,
    {
        assert(self.has_plugin(name));
        let j = self.idx_of(name);
        if i != j {
            assert(plugin_names(self.plugins@)[i] == name);
            assert(plugin_names(self.plugins@)[j] == name);
        }
    }

    /// A fresh runtime: empty registry, empty listener collections, empty
    /// history, and a new interpreter with nothing installed yet.
    pub fn new() -> (r: LuaRuntime)
        ensures
            r.wf(),
            r.plugins@ == Seq::<LuaPlugin>::empty(),
            r.calls@ == Seq::<HookCall>::empty(),
            forall|t: crate::events::EventType|
                (#[trigger] r.listeners.list_of(t)) == Seq::<Listener>::empty(),
    {
        let r = LuaRuntime {
            lua: lua_new(),
            plugins: Vec::new(),
            listeners: ListenerSet::new(),
            calls: Ghost(Seq::empty()),
        };
        proof {
            assert(plugin_names(r.plugins@) =~= Seq::<Seq<char>>::empty());
        }
        r
    }

    /// Installs the script-facing API surface: the `pumpkin` table with the
    /// logging primitives (lines are kept in `plua_log_lines`), the broadcast
    /// primitive (messages queue in `plua_outbox` until the worker drains
    /// them), and the events table whose registration entry points the host
    /// environment replaces with live ones when it wires the bridge.
    pub fn init_api(&mut self) -> (r: Result<(), PluginError>)
        requires
            old(self).wf(),
        ensures
            final(self).wf(),
            final(self).plugins@ == old(self).plugins@,
            final(self).listeners == old(self).listeners,
            final(self).calls@ == old(self).calls@,
            r matches Err(e) ==> e matches PluginError::ScriptRuntime { .. },
    {
        let bootstrap = "pumpkin = { log = {}, server = {}, events = {} }
plua_log_lines = {}
plua_outbox = {}
local function plua_store_log(level, message)
  plua_log_lines[#plua_log_lines + 1] = '[' .. level .. '] ' .. message
end
function pumpkin.log.info(message) plua_store_log('INFO', message) end
function pumpkin.log.warn(message) plua_store_log('WARN', message) end
function pumpkin.log.error(message) plua_store_log('ERROR', message) end
function pumpkin.log.debug(message) plua_store_log('DEBUG', message) end
function pumpkin.server.broadcast_message(message)
  plua_outbox[#plua_outbox + 1] = message
end
function pumpkin.events.register_listener(event_type, callback)
  error('listener registration is not wired to the host yet')
end
function pumpkin.events.unregister_listener(event_type, listener_id)
  error('listener registration is not wired to the host yet')
end";
        match lua_exec_chunk(&self.lua, bootstrap, "api_bootstrap") {
            Ok(()) => Ok(()),
            Err(e) => Err(
                PluginError::ScriptRuntime {
                    phase: ScriptPhase::Body,
                    message: lua_error_message(&e),
                },
            ),
        }
    }

    /// Finds the registry position of a plugin by name.
    fn find_plugin(&self, name: &str) -> (r: Option<usize>)
        ensures
            r matches Some(i) ==> i < self.plugins@.len()
                && self.plugins@[i as int].manifest.name@ == name@ && self.has_plugin(name@),
            r is None ==> !self.has_plugin(name@),
    {
        let mut i: usize = 0;
        while i < self.plugins.len()
            invariant
                i <= self.plugins@.len(),
                forall|k: int| 0 <= k < i ==> (#[trigger] self.plugins@[k]).manifest.name@ != name@,
            decreases self.plugins@.len() - i,
        {
            if str_eq(self.plugins[i].manifest.name.as_str(), name) {
                return Some(i);
            }
            i += 1;
        }
        proof {
            if self.has_plugin(name@) {
                let k = choose|k: int|
                    0 <= k < self.plugins@.len() && (#[trigger] self.plugins@[k]).manifest.name@
                        == name@;
            }
        }
        None
    }

    /// Whether a plugin of this name is registered.
    pub fn contains_plugin(&self, name: &str) -> (r: bool)
        ensures
            r == self.has_plugin(name@),
    {
        self.find_plugin(name).is_some()
    }

    /// Full rediscovery: clears the registry, then registers each source whose
    /// manifest extracts, disabled, in source order, later same-name sources
    /// replacing earlier ones. A source whose manifest fails to extract is
    /// skipped; the others still register. No callback is invoked.
    pub fn discover_plugins(&mut self, sources: &Vec<PluginSource>)
        requires
            old(self).wf(),
        ensures
            final(self).wf(),
            final(self).listeners == old(self).listeners,
            final(self).calls@ == old(self).calls@,
            forall|k: int|
                0 <= k < final(self).plugins@.len()
                    ==> !(#[trigger] final(self).plugins@[k]).enabled,
            exists|w: Seq<int>| sourced_by(final(self).plugins@, sources@, w),
    {
        self.plugins.clear();
        proof {
            assert(plugin_names(self.plugins@) =~= Seq::<Seq<char>>::empty());
        }
        let ghost mut gw: Seq<int> = Seq::empty();
        let mut i: usize = 0;
        while i < sources.len()
            invariant
                i <= sources@.len(),
                self.wf(),
                self.listeners == old(self).listeners,
                self.lua == old(self).lua,
                self.calls@ == old(self).calls@,
                gw.len() == self.plugins@.len(),
                forall|k: int|
                    #![trigger self.plugins@[k]]
                    0 <= k < self.plugins@.len() ==> !self.plugins@[k].enabled && 0 <= gw[k]
                        < sources@.len() && self.plugins@[k].file_path@
                        == sources@[gw[k]].file_path@ && self.plugins@[k].script@
                        == sources@[gw[k]].script@,
            decreases sources@.len() - i,
        {
            let path = sources[i].file_path.clone();
            let script = sources[i].script.clone();
            match extract_manifest(&self.lua, script.as_str(), path.as_str()) {
                Ok(m) => {
                    let rec = LuaPlugin {
                        manifest: m,
                        file_path: path,
                        script: script,
                        enabled: false,
                    };
                    let ghost gi = i as int;
                    let ghost pre_plugins = self.plugins@;
                    proof {
                        assert(rec.file_path@ == sources@[gi].file_path@);
                        assert(rec.script@ == sources@[gi].script@);
                    }
                    upsert_plugin(&mut self.plugins, rec);
                    proof {
                        if self.plugins@.len() == pre_plugins.len() + 1 {
                            assert(self.plugins@ == pre_plugins.push(rec));
                            gw = gw.push(gi);
                        } else {
                            let u = choose|u: int|
                                0 <= u < pre_plugins.len() && pre_plugins[u].manifest.name@
                                    == rec.manifest.name@ && self.plugins@ == pre_plugins.update(
                                    u,
                                    rec,
                                );
                            gw = gw.update(u, gi);
                        }
                    }
                },
                Err(_) => {},
            }
            i += 1;
        }
        proof {
            assert(sourced_by(self.plugins@, sources@, gw));
        }
    }

    /// The (name, enabled) pairs of every registered plugin, in registry
    /// order.
    pub fn get_plugin_list(&self) -> (r: Vec<(String, bool)>)
        ensures
            r@.len() == self.plugins@.len(),
            forall|k: int|
                0 <= k < r@.len() ==> (#[trigger] r@[k]).0@ == self.plugins@[k].manifest.name@
                    && r@[k].1 == self.plugins@[k].enabled,
    {
        let mut out: Vec<(String, bool)> = Vec::new();
        let mut i: usize = 0;
        while i < self.plugins.len()
            invariant
                i <= self.plugins@.len(),
                out@.len() == i,
                forall|k: int|
                    0 <= k < i ==> (#[trigger] out@[k]).0@ == self.plugins@[k].manifest.name@
                        && out@[k].1 == self.plugins@[k].enabled,
            decreases self.plugins@.len() - i,
        {
            out.push((self.plugins[i].manifest.name.clone(), self.plugins[i].enabled));
            i += 1;
        }
        out
    }

    /// A read-only snapshot of one plugin: name, description, version,
    /// author, enabled, file path — or None when the name is unknown.
    pub fn get_plugin_info(&self, name: &str) -> (r: Option<PluginInfo>)
        requires
            self.wf(),
        ensures
            r is Some <==> self.has_plugin(name@),
            r matches Some(info) ==> {
                let p = self.plugin_named(name@);
                info.0@ == p.manifest.name@ && info.1@ == p.manifest.description@ && info.2@
                    == p.manifest.version@ && info.3@ == p.manifest.author@ && info.4 == p.enabled
                    && info.5@ == p.file_path@
            },
    {
        let idx = match self.find_plugin(name) {
            Some(i) => i,
            None => {
                return None;
            },
        };
        proof {
            self.lemma_idx_is(idx as int, name@);
        }
        let p = &self.plugins[idx];
        Some(
            (
                p.manifest.name.clone(),
                p.manifest.description.clone(),
                p.manifest.version.clone(),
                p.manifest.author.clone(),
                p.enabled,
                p.file_path.clone(),
            ),
        )
    }
}

/// A read-only plugin snapshot: name, description, version, author, enabled,
/// file path.
pub type PluginInfo = (String, String, String, String, bool, String);

/// What enabling `name` does, for every outcome. Unknown or already enabled:
/// Ok(false), nothing happens, no callback runs. Otherwise the script body
/// runs; if it fails, Err with no state change and no hook. Then `on_enable`
/// runs if present (one history entry, whatever its outcome); only when it
/// succeeds does the record flip to enabled and the call answer Ok(true).
pub open spec fn enable_rel(
    pre: LuaRuntime,
    post: LuaRuntime,
    name: Seq<char>,
    r: Result<bool, PluginError>,
) -> bool {
    post.lua == pre.lua && post.listeners == pre.listeners && (match r {
        Ok(false) => (!pre.has_plugin(name) || pre.is_enabled(name)) && post.plugins@
            == pre.plugins@ && post.calls@ == pre.calls@,
        Ok(true) => pre.has_plugin(name) && !pre.is_enabled(name) && post.plugins@
            == pre.plugins@.update(
            pre.idx_of(name),
            (LuaPlugin { enabled: true, ..pre.plugin_named(name) }),
        ) && post.calls@ == pre.calls@ + (if pre.plugin_named(name).manifest.has_on_enable() {
            seq![HookCall::EnableOf { name: name }]
        } else {
            Seq::<HookCall>::empty()
        }),
        Err(e) => pre.has_plugin(name) && !pre.is_enabled(name) && post.plugins@ == pre.plugins@
            && (e matches PluginError::ScriptRuntime { phase, .. } && (phase == ScriptPhase::Body
            || phase == ScriptPhase::EnableHook) && (phase == ScriptPhase::EnableHook
            ==> pre.plugin_named(name).manifest.has_on_enable() && post.calls@ == pre.calls@
            + seq![HookCall::EnableOf { name: name }]) && (phase == ScriptPhase::Body
            ==> post.calls@ == pre.calls@)),
    })
}

/// What disabling `name` does, for every outcome. Unknown or not enabled:
/// Ok(false), nothing happens, no callback runs. Otherwise `on_disable` runs
/// if present (one history entry, whatever its outcome); the record flips to
/// disabled only when that callback succeeded — a failing one leaves the
/// plugin enabled and answers Err.
pub open spec fn disable_rel(
    pre: LuaRuntime,
    post: LuaRuntime,
    name: Seq<char>,
    r: Result<bool, PluginError>,
) -> bool {
    post.lua == pre.lua && post.listeners == pre.listeners && (match r {
        Ok(false) => !pre.is_enabled(name) && post.plugins@ == pre.plugins@ && post.calls@
            == pre.calls@,
        Ok(true) => pre.is_enabled(name) && post.plugins@ == pre.plugins@.update(
            pre.idx_of(name),
            (LuaPlugin { enabled: false, ..pre.plugin_named(name) }),
        ) && post.calls@ == pre.calls@ + (if pre.plugin_named(name).manifest.has_on_disable() {
            seq![HookCall::DisableOf { name: name }]
        } else {
            Seq::<HookCall>::empty()
        }),
        Err(e) => pre.is_enabled(name) && post.plugins@ == pre.plugins@ && pre.plugin_named(
            name,
        ).manifest.has_on_disable() && (e matches PluginError::ScriptRuntime {
            phase: ScriptPhase::DisableHook,
            ..
        }) && post.calls@ == pre.calls@ + seq![HookCall::DisableOf { name: name }],
    })
}

impl LuaRuntime {
    /// Enables a plugin: unknown or already enabled answers Ok(false) and
    /// does nothing (in particular `on_enable` is not re-invoked); otherwise
    /// the stored script body runs, then `on_enable` if the manifest has one,
    /// and the plugin counts as enabled only when both succeeded.
    pub fn enable_plugin(&mut self, name: &str) -> (r: Result<bool, PluginError>)
        requires
            old(self).wf(),
        ensures
            final(self).wf(),
            enable_rel(*old(self), *final(self), name@, r),
    {
        let idx = match self.find_plugin(name) {
            Some(i) => i,
            None => {
                return Ok(false);
            },
        };
        proof {
            self.lemma_idx_is(idx as int, name@);
        }
        if self.plugins[idx].enabled {
            return Ok(false);
        }
        let exec_result = lua_exec_chunk(
            &self.lua,
            self.plugins[idx].script.as_str(),
            self.plugins[idx].file_path.as_str(),
        );
        match exec_result {
            Err(e) => {
                return Err(
                    PluginError::ScriptRuntime {
                        phase: ScriptPhase::Body,
                        message: lua_error_message(&e),
                    },
                );
            },
            Ok(()) => {},
        }
        let ghost pre_calls = self.calls@;
        if let Some(f) = &self.plugins[idx].manifest.on_enable {
            let call_result = lua_call_unit(f);
            self.calls = Ghost(pre_calls + seq![HookCall::EnableOf { name: name@ }]);
            if let Err(e) = call_result {
                return Err(
                    PluginError::ScriptRuntime {
                        phase: ScriptPhase::EnableHook,
                        message: lua_error_message(&e),
                    },
                );
            }
        } else {
            proof {
                assert(self.calls@ =~= pre_calls + Seq::<HookCall>::empty());
            }
        }
        let ghost pre_plugins = self.plugins@;
        self.plugins[idx].enabled = true;
        proof {
            assert(self.plugins@ =~= pre_plugins.update(
                idx as int,
                (LuaPlugin { enabled: true, ..pre_plugins[idx as int] }),
            ));
            assert(plugin_names(self.plugins@) =~= plugin_names(pre_plugins));
        }
        Ok(true)
    }

    /// Disables a plugin: unknown or not enabled answers Ok(false) and does
    /// nothing (in particular `on_disable` is not invoked); otherwise
    /// `on_disable` runs if present, and only its success flips the record to
    /// disabled.
    pub fn disable_plugin(&mut self, name: &str) -> (r: Result<bool, PluginError>)
        requires
            old(self).wf(),
        ensures
            final(self).wf(),
            disable_rel(*old(self), *final(self), name@, r),
    {
        let idx = match self.find_plugin(name) {
            Some(i) => i,
            None => {
                return Ok(false);
            },
        };
        proof {
            self.lemma_idx_is(idx as int, name@);
        }
        if !self.plugins[idx].enabled {
            return Ok(false);
        }
        let ghost pre_calls = self.calls@;
        if let Some(f) = &self.plugins[idx].manifest.on_disable {
            let call_result = lua_call_unit(f);
            self.calls = Ghost(pre_calls + seq![HookCall::DisableOf { name: name@ }]);
            if let Err(e) = call_result {
                return Err(
                    PluginError::ScriptRuntime {
                        phase: ScriptPhase::DisableHook,
                        message: lua_error_message(&e),
                    },
                );
            }
        } else {
            proof {
                assert(self.calls@ =~= pre_calls + Seq::<HookCall>::empty());
            }
        }
        let ghost pre_plugins = self.plugins@;
        self.plugins[idx].enabled = false;
        proof {
            assert(self.plugins@ =~= pre_plugins.update(
                idx as int,
                (LuaPlugin { enabled: false, ..pre_plugins[idx as int] }),
            ));
            assert(plugin_names(self.plugins@) =~= plugin_names(pre_plugins));
        }
        Ok(true)
    }
}

/// How one record may change under the disable-everything sweep: it is
/// untouched, or flipped to disabled; a disabled record never changes; an
/// enabled one without `on_disable` surely ends disabled; one that ends
/// enabled was enabled and its `on_disable` (which it has) failed.
pub open spec fn disabled_sweep_rec(pre_rec: LuaPlugin, post_rec: LuaPlugin) -> bool {
    (post_rec == pre_rec || post_rec == (LuaPlugin { enabled: false, ..pre_rec })) && (
    !pre_rec.enabled ==> post_rec == pre_rec) && (pre_rec.enabled
        && !pre_rec.manifest.has_on_disable() ==> !post_rec.enabled) && (post_rec.enabled
        ==> pre_rec.enabled && pre_rec.manifest.has_on_disable())
}

/// The callback invocations a sweep disabling every enabled plugin makes:
/// one `on_disable` per enabled plugin that has one, in registry order.
pub open spec fn disable_all_calls(s: Seq<LuaPlugin>) -> Seq<HookCall>
    decreases s.len(),
{
    if s.len() == 0 {
        Seq::<HookCall>::empty()
    } else {
        disable_all_calls(s.drop_last()) + (if s.last().enabled
            && s.last().manifest.has_on_disable() {
            seq![HookCall::DisableOf { name: s.last().manifest.name@ }]
        } else {
            Seq::<HookCall>::empty()
        })
    }
}

/// A name none of the records carries contributes nothing to the disable
/// sweep.
pub proof fn lemma_disable_calls_absent(s: Seq<LuaPlugin>, n: Seq<char>)
    requires
        forall|k: int| 0 <= k < s.len() ==> (#[trigger] s[k]).manifest.name@ != n,
    ensures
        count_of(disable_all_calls(s), HookCall::DisableOf { name: n }) == 0,
    decreases s.len(),
{
    let c = HookCall::DisableOf { name: n };
    if s.len() == 0 {
        crate::trace::lemma_count_empty(c);
    } else {
        let t = s.drop_last();
        let tail_part = if s.last().enabled && s.last().manifest.has_on_disable() {
            seq![HookCall::DisableOf { name: s.last().manifest.name@ }]
        } else {
            Seq::<HookCall>::empty()
        };
        assert(disable_all_calls(s) == disable_all_calls(t) + tail_part);
        assert(forall|k: int| 0 <= k < t.len() ==> (#[trigger] t[k]).manifest.name@ != n);
        lemma_disable_calls_absent(t, n);
        crate::trace::lemma_count_concat(disable_all_calls(t), tail_part, c);
        if s.last().enabled && s.last().manifest.has_on_disable() {
            crate::trace::lemma_count_single(
                HookCall::DisableOf { name: s.last().manifest.name@ },
                c,
            );
        } else {
            crate::trace::lemma_count_empty(c);
        }
    }
}

/// The disable sweep invokes each plugin's `on_disable` exactly once when the
/// plugin is enabled and has one, and never otherwise.
pub proof fn lemma_disable_sweep_counts(s: Seq<LuaPlugin>, k: int)
    requires
        distinct_seqs(plugin_names(s)),
        0 <= k < s.len(),
    ensures
        count_of(disable_all_calls(s), HookCall::DisableOf { name: s[k].manifest.name@ }) == (
        if s[k].enabled && s[k].manifest.has_on_disable() {
            1nat
        } else {
            0nat
        }),
    decreases s.len(),
{
    let n = s[k].manifest.name@;
    let c = HookCall::DisableOf { name: n };
    let t = s.drop_last();
    let tail_part = if s.last().enabled && s.last().manifest.has_on_disable() {
        seq![HookCall::DisableOf { name: s.last().manifest.name@ }]
    } else {
        Seq::<HookCall>::empty()
    };
    assert(disable_all_calls(s) == disable_all_calls(t) + tail_part);
    crate::trace::lemma_count_concat(disable_all_calls(t), tail_part, c);
    assert(forall|a: int, b: int|
        0 <= a < b < s.len() ==> plugin_names(s)[a] != plugin_names(s)[b]);
    if k == s.len() - 1 {
        assert forall|j: int| 0 <= j < t.len() implies (#[trigger] t[j]).manifest.name@ != n by {
            assert(plugin_names(s)[j] != plugin_names(s)[k]);
        }
        lemma_disable_calls_absent(t, n);
        if s.last().enabled && s.last().manifest.has_on_disable() {
            crate::trace::lemma_count_single(
                HookCall::DisableOf { name: s.last().manifest.name@ },
                c,
            );
        } else {
            crate::trace::lemma_count_empty(c);
        }
    } else {
        assert(distinct_seqs(plugin_names(t))) by {
            assert forall|a: int, b: int|
                0 <= a < b < plugin_names(t).len() implies plugin_names(t)[a] != plugin_names(
                t,
            )[b] by {
                assert(plugin_names(t)[a] == plugin_names(s)[a]);
                assert(plugin_names(t)[b] == plugin_names(s)[b]);
            }
        }
        assert(t[k] == s[k]);
        lemma_disable_sweep_counts(t, k);
        if s.last().enabled && s.last().manifest.has_on_disable() {
            assert(plugin_names(s)[k] != plugin_names(s)[s.len() - 1]);
            assert(s.last().manifest.name@ != n);
            crate::trace::lemma_count_single(
                HookCall::DisableOf { name: s.last().manifest.name@ },
                c,
            );
        } else {
            crate::trace::lemma_count_empty(c);
        }
    }
}

/// What a pass enabling every name of `auto` (in order, failures swallowed)
/// does. The history grows only by `on_enable` invocations of listed,
/// registered plugins; a plugin that was already enabled is untouched and its
/// hook does not re-fire; one that ends up enabled had its hook fire exactly
/// once (when it has one); none fires more than once; an unlisted name's hook
/// does not fire at all.
pub open spec fn load_post(pre: LuaRuntime, post: LuaRuntime, auto: Seq<Seq<char>>) -> bool {
    let delta = post.calls@.skip(pre.calls@.len() as int);
    post.lua == pre.lua && post.listeners == pre.listeners && post.plugins@.len()
        == pre.plugins@.len() && plugin_names(post.plugins@) == plugin_names(pre.plugins@)
        && post.calls@.len() >= pre.calls@.len() && post.calls@.take(pre.calls@.len() as int)
        == pre.calls@ && (forall|j: int|
        0 <= j < delta.len() ==> (match #[trigger] delta[j] {
            HookCall::EnableOf { name } => auto.contains(name) && pre.has_plugin(name),
            _ => false,
        })) && (forall|k: int|
        #![trigger post.plugins@[k]]
        0 <= k < pre.plugins@.len() ==> {
            let n = pre.plugins@[k].manifest.name@;
            let c = count_of(delta, HookCall::EnableOf { name: n });
            (post.plugins@[k] == pre.plugins@[k] || post.plugins@[k] == (LuaPlugin {
                enabled: true,
                ..pre.plugins@[k]
            })) && (!auto.contains(n) ==> post.plugins@[k] == pre.plugins@[k] && c == 0) && (
            pre.plugins@[k].enabled ==> post.plugins@[k] == pre.plugins@[k] && c == 0) && c <= 1
                && (!pre.plugins@[k].enabled && post.plugins@[k].enabled ==> c == (
            if pre.plugins@[k].manifest.has_on_enable() {
                1int
            } else {
                0int
            })) && (!pre.plugins@[k].manifest.has_on_enable() ==> c == 0)
        })
}

impl LuaRuntime {
    /// Disables every enabled plugin, in registry order, swallowing
    /// individual failures: each enabled plugin's `on_disable` (when it has
    /// one) is invoked exactly once; a plugin stays enabled only when that
    /// callback failed; disabled plugins and everything else are untouched.
    pub fn disable_all_plugins(&mut self)
        requires
            old(self).wf(),
        ensures
            final(self).wf(),
            final(self).lua == old(self).lua,
            final(self).listeners == old(self).listeners,
            final(self).plugins@.len() == old(self).plugins@.len(),
            plugin_names(final(self).plugins@) == plugin_names(old(self).plugins@),
            final(self).calls@ == old(self).calls@ + disable_all_calls(old(self).plugins@),
            forall|k: int|
                #![trigger final(self).plugins@[k]]
                0 <= k < old(self).plugins@.len() ==> disabled_sweep_rec(
                    old(self).plugins@[k],
                    final(self).plugins@[k],
                ),
    {
        let ghost pre = *self;
        let mut i: usize = 0;
        proof {
            assert(self.calls@ =~= pre.calls@ + disable_all_calls(pre.plugins@.take(0)));
        }
        while i < self.plugins.len()
            invariant
                self.wf(),
                i <= pre.plugins@.len(),
                self.lua == pre.lua,
                self.listeners == pre.listeners,
                self.plugins@.len() == pre.plugins@.len(),
                plugin_names(self.plugins@) == plugin_names(pre.plugins@),
                self.calls@ == pre.calls@ + disable_all_calls(pre.plugins@.take(i as int)),
                forall|k: int|
                    #![trigger self.plugins@[k]]
                    i <= k < pre.plugins@.len() ==> self.plugins@[k] == pre.plugins@[k],
                forall|k: int|
                    #![trigger self.plugins@[k]]
                    0 <= k < i ==> disabled_sweep_rec(pre.plugins@[k], self.plugins@[k]),
            decreases pre.plugins@.len() - i,
        {
            let ghost cur = *self;
            proof {
                assert(pre.plugins@.take(i + 1).drop_last() =~= pre.plugins@.take(i as int));
                assert(pre.plugins@.take(i + 1).last() == pre.plugins@[i as int]);
            }
            if self.plugins[i].enabled {
                let name = self.plugins[i].manifest.name.clone();
                proof {
                    self.lemma_idx_is(i as int, name@);
                }
                let outcome = self.disable_plugin(name.as_str());
                proof {
                    assert(disable_rel(cur, *self, name@, outcome));
                    assert(cur.plugin_named(name@) == pre.plugins@[i as int]);
                    if outcome is Err {
                        assert(self.calls@ =~= pre.calls@ + disable_all_calls(
                            pre.plugins@.take(i + 1),
                        ));
                    } else {
                        assert(self.calls@ =~= pre.calls@ + disable_all_calls(
                            pre.plugins@.take(i + 1),
                        ));
                    }
                }
            } else {
                proof {
                    assert(disable_all_calls(pre.plugins@.take(i + 1)) =~= disable_all_calls(
                        pre.plugins@.take(i as int),
                    ) + Seq::<HookCall>::empty());
                    assert(self.calls@ =~= pre.calls@ + disable_all_calls(
                        pre.plugins@.take(i + 1),
                    ));
                }
            }
            i += 1;
        }
        proof {
            assert(pre.plugins@.take(pre.plugins@.len() as int) =~= pre.plugins@);
        }
    }
}

impl LuaRuntime {
    /// Enables every plugin the auto-enable set names, in order, swallowing
    /// individual failures. The set must not name a plugin twice. An unknown
    /// or already-enabled name does nothing; in particular no hook fires more
    /// than once across the whole pass.
    pub fn load_enabled_plugins(&mut self, auto: &Vec<String>)
        requires
            old(self).wf(),
            distinct_seqs(names_view(auto@)),
        ensures
            final(self).wf(),
            load_post(*old(self), *final(self), names_view(auto@)),
    {
        let ghost pre = *self;
        let ghost all = names_view(auto@);
        proof {
            assert(pre.calls@.skip(pre.calls@.len() as int) =~= Seq::<HookCall>::empty());
            assert(pre.calls@.take(pre.calls@.len() as int) =~= pre.calls@);
            assert forall|k: int|
                #![trigger pre.plugins@[k]]
                0 <= k < pre.plugins@.len() implies count_of(
                Seq::<HookCall>::empty(),
                HookCall::EnableOf { name: pre.plugins@[k].manifest.name@ },
            ) == 0 by {
                crate::trace::lemma_count_empty(
                    HookCall::EnableOf { name: pre.plugins@[k].manifest.name@ },
                );
            }
            assert(load_post(pre, pre, all.take(0)));
        }
        let mut j: usize = 0;
        while j < auto.len()
            invariant
                j <= auto@.len(),
                self.wf(),
                distinct_seqs(plugin_names(pre.plugins@)),
                distinct_seqs(all),
                all == names_view(auto@),
                load_post(pre, *self, all.take(j as int)),
            decreases auto@.len() - j,
        {
            let ghost cur = *self;
            let outcome = self.enable_plugin(auto[j].as_str());
            proof {
                let nj = all[j as int];
                assert(auto@[j as int]@ == nj);
                assert(!all.take(j as int).contains(nj)) by {
                    if all.take(j as int).contains(nj) {
                        let m = choose|m: int|
                            0 <= m < j && #[trigger] all.take(j as int)[m] == nj;
                        assert(all[m] == all[j as int]);
                    }
                }
                lemma_load_step(pre, cur, *self, all.take(j as int), nj, outcome);
                assert(all.take(j as int).push(nj) =~= all.take(j + 1));
            }
            j += 1;
        }
        proof {
            assert(all.take(auto@.len() as int) =~= all);
        }
    }
}

/// The history entries one delivery of an event makes: one invocation per
/// registered listener of that type, in registration order.
pub open spec fn listener_calls(ls: Seq<Listener>) -> Seq<HookCall> {
    ls.map_values(|l: Listener| HookCall::ListenerOf { id: l.id@ })
}

/// Whether a serialized snapshot matches the schema of an event type — the
/// condition under which the worker delivers it rather than dropping it.
pub open spec fn payload_ok(t: EventType, data: Seq<char>) -> bool {
    match t {
        EventType::PlayerJoin => json_str_field(data, "player_name"@) is Some && json_str_field(
            data,
            "player_uuid"@,
        ) is Some && json_str_field(data, "join_message"@) is Some,
        EventType::PlayerLeave => json_str_field(data, "player_name"@) is Some && json_str_field(
            data,
            "player_uuid"@,
        ) is Some && json_str_field(data, "leave_message"@) is Some,
        EventType::PlayerChat => json_str_field(data, "player_name"@) is Some && json_str_field(
            data,
            "player_uuid"@,
        ) is Some && json_str_field(data, "message"@) is Some && (match json_i64_field(
            data,
            "recipients"@,
        ) {
            Some(n) => n >= 0,
            None => false,
        }),
        EventType::BlockPlace => json_str_field(data, "player_name"@) is Some && json_str_field(
            data,
            "player_uuid"@,
        ) is Some && json_str_field(data, "block_placed"@) is Some && json_str_field(
            data,
            "block_against"@,
        ) is Some && json_bool_field(data, "can_build"@) is Some,
        EventType::BlockBreak => json_str_field(data, "block_type"@) is Some && (
        match json_i64_field(data, "position_x"@) {
            Some(n) => i32::MIN <= n <= i32::MAX,
            None => false,
        }) && (match json_i64_field(data, "position_y"@) {
            Some(n) => i32::MIN <= n <= i32::MAX,
            None => false,
        }) && (match json_i64_field(data, "position_z"@) {
            Some(n) => i32::MIN <= n <= i32::MAX,
            None => false,
        }) && json_u32_field(data, "experience"@) is Some && json_bool_field(
            data,
            "drop_items"@,
        ) is Some,
    }
}

/// What reloading one plugin does, for every outcome: an unknown name is
/// Ok(false) and a no-op; Ok(true) means every phase succeeded and the plugin
/// is exactly as enabled as before; a failing phase surfaces as Err; and the
/// history grows only by this plugin's own lifecycle hooks.
pub open spec fn reload_one_post(
    pre: LuaRuntime,
    post: LuaRuntime,
    name: Seq<char>,
    r: Result<bool, PluginError>,
) -> bool {
    post.lua == pre.lua && post.listeners == pre.listeners && (!pre.has_plugin(name) <==> (r
        matches Ok(b) && !b)) && ((r matches Ok(b) && !b) ==> post == pre) && ((r matches Ok(b)
        && b) ==> post.has_plugin(name) && (post.is_enabled(name) <==> pre.is_enabled(name))) && (r
        matches Err(e) ==> pre.has_plugin(name) && (e matches PluginError::ScriptRuntime { .. }
        || e matches PluginError::ScriptParse { .. })) && post.calls@.len() >= pre.calls@.len()
        && post.calls@.take(pre.calls@.len() as int) == pre.calls@ && (forall|j: int|
        #![trigger post.calls@[j]]
        pre.calls@.len() <= j < post.calls@.len() ==> (post.calls@[j] == (HookCall::DisableOf {
            name: name,
        }) || post.calls@[j] == (HookCall::EnableOf { name: name })))
}

/// What delivering one posted event does: the registry and the listener
/// collections stay put; an unknown type tag or a snapshot that fails its
/// schema invokes nothing; otherwise either delivery could not start and
/// nothing ran, or every listener of that type ran exactly once, in
/// registration order.
pub open spec fn dispatch_post(
    pre: LuaRuntime,
    post: LuaRuntime,
    ty: Seq<char>,
    data: Seq<char>,
) -> bool {
    post.plugins@ == pre.plugins@ && post.listeners == pre.listeners && post.lua == pre.lua && (
    match event_type_of(ty) {
        None => post.calls@ == pre.calls@,
        Some(t) => (post.calls@ == pre.calls@ || post.calls@ == pre.calls@ + listener_calls(
            pre.listeners.list_of(t),
        )) && (!payload_ok(t, data) ==> post.calls@ == pre.calls@),
    })
}

impl LuaRuntime {
    /// Reloads one plugin from a fresh directory snapshot: unknown answers
    /// Ok(false) untouched; otherwise the plugin is disabled first when it
    /// was enabled, its manifest re-extracted from its file, the record
    /// replaced, and, when it had been enabled, enabled again — so Ok(true)
    /// leaves the plugin exactly as enabled as it was. Any phase's failure
    /// surfaces and stops the round trip.
    pub fn reload_plugin(&mut self, name: &str, sources: &Vec<PluginSource>) -> (r: Result<
        bool,
        PluginError,
    >)
        requires
            old(self).wf(),
        ensures
            final(self).wf(),
            reload_one_post(*old(self), *final(self), name@, r),
    {
        let ghost pre = *self;
        let idx0 = match self.find_plugin(name) {
            Some(i) => i,
            None => {
                proof {
                    assert(self.calls@.take(self.calls@.len() as int) =~= self.calls@);
                }
                return Ok(false);
            },
        };
        proof {
            self.lemma_idx_is(idx0 as int, name@);
        }
        let was_enabled = self.plugins[idx0].enabled;
        if was_enabled {
            match self.disable_plugin(name) {
                Ok(db) => {
                    proof {
                        if !db {
                            assert(false);
                        }
                    }
                },
                Err(e) => {
                    proof {
                        assert(self.calls@.take(pre.calls@.len() as int) =~= pre.calls@);
                    }
                    return Err(e);
                },
            }
        }
        let ghost mid = *self;
        // The record still exists (disabling keeps names and positions); take
        // its path and look the file up in the snapshot.
        let idx = match self.find_plugin(name) {
            Some(i) => i,
            None => {
                proof {
                    assert(mid.plugins@[idx0 as int].manifest.name@ == name@);
                    assert(false);
                }
                return Ok(false);
            },
        };
        proof {
            self.lemma_idx_is(idx as int, name@);
            assert(!self.plugins@[idx as int].enabled) by {
                if was_enabled {
                    assert(mid.plugins@ == pre.plugins@.update(
                        pre.idx_of(name@),
                        (LuaPlugin { enabled: false, ..pre.plugin_named(name@) }),
                    ));
                    assert(pre.idx_of(name@) == idx0 as int);
                    assert(mid.plugins@[idx0 as int].manifest.name@ == name@);
                    mid.lemma_idx_is(idx0 as int, name@);
                    mid.lemma_idx_is(idx as int, name@);
                    assert(idx as int == idx0 as int);
                } else {
                    assert(mid == pre);
                    mid.lemma_idx_is(idx0 as int, name@);
                    mid.lemma_idx_is(idx as int, name@);
                    assert(idx as int == idx0 as int);
                }
            }
            assert(self.calls@.take(pre.calls@.len() as int) =~= pre.calls@);
        }
        let path = self.plugins[idx].file_path.clone();
        let source = match find_source(sources, path.as_str()) {
            Some(s) => s,
            None => {
                return Err(
                    PluginError::ScriptParse {
                        message: "plugin file is no longer present".to_owned(),
                    },
                );
            },
        };
        let script = source.script.clone();
        let m = match extract_manifest(&self.lua, script.as_str(), path.as_str()) {
            Ok(m) => m,
            Err(e) => {
                return Err(e);
            },
        };
        let rec = LuaPlugin { manifest: m, file_path: path, script: script, enabled: false };
        let ghost mid2 = *self;
        upsert_plugin(&mut self.plugins, rec);
        proof {
            // The record named `name` is present and disabled after the
            // replacement, whether the fresh manifest kept its name or not.
            assert(self.has_plugin(name@) && !self.is_enabled(name@)) by {
                if self.plugins@.len() == mid2.plugins@.len() + 1 {
                    assert(self.plugins@ == mid2.plugins@.push(rec));
                    assert(self.plugins@[idx as int].manifest.name@ == name@);
                    self.lemma_idx_is(idx as int, name@);
                    assert(!self.plugins@[idx as int].enabled);
                } else {
                    let u = choose|u: int|
                        0 <= u < mid2.plugins@.len() && mid2.plugins@[u].manifest.name@
                            == rec.manifest.name@ && self.plugins@ == mid2.plugins@.update(u, rec);
                    if u == idx as int {
                        assert(self.plugins@[u].manifest.name@ == rec.manifest.name@);
                        assert(mid2.plugins@[idx as int].manifest.name@ == name@);
                        assert(rec.manifest.name@ == name@);
                        self.lemma_idx_is(u, name@);
                        assert(!self.plugins@[u].enabled);
                    } else {
                        assert(self.plugins@[idx as int] == mid2.plugins@[idx as int]);
                        self.lemma_idx_is(idx as int, name@);
                        assert(!self.plugins@[idx as int].enabled);
                    }
                }
            }
            assert(self.calls@.take(pre.calls@.len() as int) =~= pre.calls@);
        }
        if was_enabled {
            let ghost mid3 = *self;
            match self.enable_plugin(name) {
                Ok(b) => {
                    proof {
                        if !b {
                            // Ok(false) would mean the plugin is unknown or
                            // already enabled; it is neither.
                            assert(false);
                        } else {
                            let i2 = mid3.idx_of(name@);
                            assert(self.plugins@ == mid3.plugins@.update(
                                i2,
                                (LuaPlugin { enabled: true, ..mid3.plugin_named(name@) }),
                            ));
                            assert(self.plugins@[i2].enabled);
                            assert(self.plugins@[i2].manifest.name@ == name@);
                            self.lemma_idx_is(i2, name@);
                            assert(self.is_enabled(name@));
                        }
                    }
                },
                Err(e) => {
                    proof {
                        assert(self.calls@.take(pre.calls@.len() as int) =~= pre.calls@);
                    }
                    return Err(e);
                },
            }
        }
        proof {
            assert(self.calls@.take(pre.calls@.len() as int) =~= pre.calls@);
            assert(pre.is_enabled(name@) == was_enabled);
        }
        Ok(true)
    }

    /// How many listeners one event type has.
    fn listener_count(&self, t: EventType) -> (r: usize)
        ensures
            r == self.listeners.list_of(t).len(),
    {
        match t {
            EventType::PlayerJoin => self.listeners.player_join.len(),
            EventType::PlayerLeave => self.listeners.player_leave.len(),
            EventType::PlayerChat => self.listeners.player_chat.len(),
            EventType::BlockPlace => self.listeners.block_place.len(),
            EventType::BlockBreak => self.listeners.block_break.len(),
        }
    }

    /// One event type's listener at one position.
    fn listener_at(&self, t: EventType, i: usize) -> (r: &Listener)
        requires
            i < self.listeners.list_of(t).len(),
        ensures
            *r == self.listeners.list_of(t)[i as int],
    {
        match t {
            EventType::PlayerJoin => &self.listeners.player_join[i],
            EventType::PlayerLeave => &self.listeners.player_leave[i],
            EventType::PlayerChat => &self.listeners.player_chat[i],
            EventType::BlockPlace => &self.listeners.block_place[i],
            EventType::BlockBreak => &self.listeners.block_break[i],
        }
    }

    /// Invokes every listener of one type once with the event table, in
    /// registration order; one listener's failure never keeps a later one
    /// from running.
    fn run_listeners(&mut self, t: EventType, tbl: &mlua::Table)
        requires
            old(self).wf(),
        ensures
            final(self).wf(),
            final(self).plugins@ == old(self).plugins@,
            final(self).listeners == old(self).listeners,
            final(self).lua == old(self).lua,
            final(self).calls@ == old(self).calls@ + listener_calls(
                old(self).listeners.list_of(t),
            ),
    {
        let ghost pre = *self;
        let n = self.listener_count(t);
        proof {
            assert(listener_calls(pre.listeners.list_of(t).take(0)) =~= Seq::<HookCall>::empty());
            assert(self.calls@ =~= pre.calls@ + listener_calls(pre.listeners.list_of(t).take(0)));
        }
        let mut i: usize = 0;
        while i < n
            invariant
                i <= n,
                n == pre.listeners.list_of(t).len(),
                *self == (LuaRuntime { calls: self.calls, ..pre }),
                self.calls@ == pre.calls@ + listener_calls(pre.listeners.list_of(t).take(i as int)),
            decreases n - i,
        {
            let _ = lua_call_with_table(&self.listener_at(t, i).callback, tbl);
            proof {
                assert(pre.listeners.list_of(t).take(i + 1) =~= pre.listeners.list_of(t).take(
                    i as int,
                ).push(pre.listeners.list_of(t)[i as int]));
            }
            self.calls = Ghost(
                self.calls@ + seq![
                    HookCall::ListenerOf { id: pre.listeners.list_of(t)[i as int].id@ },
                ],
            );
            proof {
                assert(listener_calls(pre.listeners.list_of(t).take(i + 1)) =~= listener_calls(
                    pre.listeners.list_of(t).take(i as int),
                ).push(HookCall::ListenerOf { id: pre.listeners.list_of(t)[i as int].id@ }));
                assert(self.calls@ =~= pre.calls@ + listener_calls(
                    pre.listeners.list_of(t).take(i + 1),
                ));
            }
            i += 1;
        }
        proof {
            assert(pre.listeners.list_of(t).take(n as int) =~= pre.listeners.list_of(t));
        }
    }

    /// Worker-side delivery of one posted event: decodes the snapshot by its
    /// type tag and invokes that type's listeners with a fresh event table.
    /// An unknown tag or a snapshot that does not match the schema is dropped
    /// whole: no listener runs. Otherwise either delivery could not start (the
    /// event table could not be built) and no listener ran, or every listener
    /// of the type ran exactly once.
    pub fn dispatch_event(&mut self, event_type: &str, event_data: &str)
        requires
            old(self).wf(),
        ensures
            final(self).wf(),
            dispatch_post(*old(self), *final(self), event_type@, event_data@),
    {
        let t = match parse_event_type(event_type) {
            Some(t) => t,
            None => {
                return ;
            },
        };
        let tbl = match t {
            EventType::PlayerJoin => {
                let d = match decode_player_join(event_data) {
                    Some(d) => d,
                    None => {
                        return ;
                    },
                };
                build_player_join_table(&self.lua, &d)
            },
            EventType::PlayerLeave => {
                let d = match decode_player_leave(event_data) {
                    Some(d) => d,
                    None => {
                        return ;
                    },
                };
                build_player_leave_table(&self.lua, &d)
            },
            EventType::PlayerChat => {
                let d = match decode_player_chat(event_data) {
                    Some(d) => d,
                    None => {
                        return ;
                    },
                };
                build_player_chat_table(&self.lua, &d)
            },
            EventType::BlockPlace => {
                let d = match decode_block_place(event_data) {
                    Some(d) => d,
                    None => {
                        return ;
                    },
                };
                build_block_place_table(&self.lua, &d)
            },
            EventType::BlockBreak => {
                let d = match decode_block_break(event_data) {
                    Some(d) => d,
                    None => {
                        return ;
                    },
                };
                build_block_break_table(&self.lua, &d)
            },
        };
        let tbl = match tbl {
            Ok(tbl) => tbl,
            Err(_) => {
                return ;
            },
        };
        self.run_listeners(t, &tbl);
    }

    /// The lines the script-facing log primitives have written so far, oldest
    /// first; empty when the API surface is not installed.
    pub fn log_lines(&self) -> (r: Vec<String>) {
        match lua_global_table(&self.lua, "plua_log_lines") {
            Some(t) => match table_string_values(&t) {
                Ok(v) => v,
                Err(_) => Vec::new(),
            },
            None => Vec::new(),
        }
    }

    /// Takes every message scripts have queued for broadcast since the last
    /// drain, oldest first, leaving the queue empty. The host sends them.
    pub fn drain_outbox(&self) -> (r: Vec<String>) {
        match lua_global_table(&self.lua, "plua_outbox") {
            Some(t) => match table_string_values(&t) {
                Ok(v) => {
                    let _ = table_clear(&t);
                    v
                },
                Err(_) => Vec::new(),
            },
            None => Vec::new(),
        }
    }

    /// The value of a global interpreter variable when it is (coercible to) a
    /// string.
    pub fn global_string(&self, name: &str) -> (r: Option<String>) {
        lua_global_string(&self.lua, name)
    }

    /// The value of a global interpreter variable when it is an integer.
    pub fn global_i64(&self, name: &str) -> (r: Option<i64>) {
        lua_global_i64(&self.lua, name)
    }
}

/// The matching source for a file path, if the snapshot holds one.
fn find_source<'a>(sources: &'a Vec<PluginSource>, path: &str) -> (r: Option<&'a PluginSource>)
    ensures
        r matches Some(s) ==> s.file_path@ == path@,
{
    let mut i: usize = 0;
    while i < sources.len()
        invariant
            i <= sources@.len(),
        decreases sources@.len() - i,
    {
        if str_eq(sources[i].file_path.as_str(), path) {
            return Some(&sources[i]);
        }
        i += 1;
    }
    None
}

/// A recognized script extension: "lua" or "luau", any letter case.
pub open spec fn is_script_ext(e: Seq<char>) -> bool {
    (e.len() == 3 || e.len() == 4) && (e[0] == 'l' || e[0] == 'L') && (e[1] == 'u' || e[1] == 'U')
        && (e[2] == 'a' || e[2] == 'A') && (e.len() == 4 ==> e[3] == 'u' || e[3] == 'U')
}

/// A file name the loader takes: its extension (what follows the last dot)
/// is a recognized script extension.
pub open spec fn is_script_file(s: Seq<char>) -> bool {
    exists|i: int|
        0 <= i < s.len() && #[trigger] s[i] == '.' && (forall|j: int|
            i < j < s.len() ==> s[j] != '.') && is_script_ext(s.subrange(i + 1, s.len() as int))
}

/// Whether a file name carries a recognized script extension. The host asks
/// this for each directory entry before reading it as a plugin.
#[verifier::loop_isolation(false)]
pub fn can_load(path: &str) -> (r: bool)
    ensures
        r == is_script_file(path@),
{
    let n = path.unicode_len();
    let mut dot: Option<usize> = None;
    let mut i: usize = 0;
    while i < n
        invariant
            i <= n,
            n == path@.len(),
            match dot {
                Some(d) => d < i && path@[d as int] == '.' && (forall|j: int|
                    d < j < i ==> path@[j] != '.'),
                None => forall|j: int| 0 <= j < i ==> path@[j] != '.',
            },
        decreases n - i,
    {
        if path.get_char(i) == '.' {
            dot = Some(i);
        }
        i += 1;
    }
    let d = match dot {
        Some(d) => d,
        None => {
            proof {
                if is_script_file(path@) {
                    let w = choose|w: int|
                        0 <= w < path@.len() && #[trigger] path@[w] == '.' && (forall|j: int|
                            w < j < path@.len() ==> path@[j] != '.') && is_script_ext(
                            path@.subrange(w + 1, path@.len() as int),
                        );
                }
            }
            return false;
        },
    };
    proof {
        // the found dot is the only admissible witness
        if is_script_file(path@) {
            let w = choose|w: int|
                0 <= w < path@.len() && #[trigger] path@[w] == '.' && (forall|j: int|
                    w < j < path@.len() ==> path@[j] != '.') && is_script_ext(
                    path@.subrange(w + 1, path@.len() as int),
                );
            assert(w == d as int);
        }
    }
    let ghost ext = path@.subrange(d + 1, n as int);
    let len = n - d - 1;
    if len != 3 && len != 4 {
        return false;
    }
    let c0 = path.get_char(d + 1);
    let c1 = path.get_char(d + 2);
    let c2 = path.get_char(d + 3);
    proof {
        assert(ext[0] == path@[d + 1]);
        assert(ext[1] == path@[d + 2]);
        assert(ext[2] == path@[d + 3]);
    }
    let head_ok = (c0 == 'l' || c0 == 'L') && (c1 == 'u' || c1 == 'U') && (c2 == 'a' || c2
        == 'A');
    if len == 3 {
        head_ok
    } else {
        let c3 = path.get_char(d + 4);
        proof {
            assert(ext[3] == path@[d + 4]);
        }
        head_ok && (c3 == 'u' || c3 == 'U')
    }
}

/// Round trip, enabled side: enabling a plugin and then reloading that one
/// plugin, both succeeding, leaves the plugin enabled.
pub proof fn lemma_round_trip_enable(
    pre: LuaRuntime,
    mid: LuaRuntime,
    post: LuaRuntime,
    name: Seq<char>,
)
    requires
        distinct_seqs(plugin_names(pre.plugins@)),
        enable_rel(pre, mid, name, Ok::<bool, PluginError>(true)),
        reload_one_post(mid, post, name, Ok::<bool, PluginError>(true)),
    ensures
        post.is_enabled(name),
{
    let i = pre.idx_of(name);
    assert(pre.plugins@[i].manifest.name@ == name);
    assert(mid.plugins@[i].enabled);
    assert(mid.plugins@[i].manifest.name@ == name);
    assert(plugin_names(mid.plugins@) =~= plugin_names(pre.plugins@));
    mid.lemma_idx_is(i, name);
    assert(mid.is_enabled(name));
}

/// Round trip, disabled side: disabling a plugin and then reloading that one
/// plugin, both succeeding, leaves the plugin present and disabled.
pub proof fn lemma_round_trip_disable(
    pre: LuaRuntime,
    mid: LuaRuntime,
    post: LuaRuntime,
    name: Seq<char>,
)
    requires
        distinct_seqs(plugin_names(pre.plugins@)),
        disable_rel(pre, mid, name, Ok::<bool, PluginError>(true)),
        reload_one_post(mid, post, name, Ok::<bool, PluginError>(true)),
    ensures
        post.has_plugin(name),
        !post.is_enabled(name),
{
    let i = pre.idx_of(name);
    assert(pre.plugins@[i].manifest.name@ == name);
    assert(!mid.plugins@[i].enabled);
    assert(mid.plugins@[i].manifest.name@ == name);
    assert(plugin_names(mid.plugins@) =~= plugin_names(pre.plugins@));
    mid.lemma_idx_is(i, name);
    assert(!mid.is_enabled(name));
}

/// One step of the enable pass: attempting one fresh name extends the pass's
/// guarantee to that name.
proof fn lemma_load_step(
    pre: LuaRuntime,
    cur: LuaRuntime,
    next: LuaRuntime,
    done: Seq<Seq<char>>,
    n: Seq<char>,
    r: Result<bool, PluginError>,
)
    requires
        distinct_seqs(plugin_names(pre.plugins@)),
        load_post(pre, cur, done),
        enable_rel(cur, next, n, r),
        !done.contains(n),
    ensures
        load_post(pre, next, done.push(n)),
{
    let delta = cur.calls@.skip(pre.calls@.len() as int);
    let dj = next.calls@.skip(cur.calls@.len() as int);
    let delta2 = next.calls@.skip(pre.calls@.len() as int);
    // The history only grows, and the new tail splits into the old tail plus
    // this step's contribution.
    assert(next.calls@.len() >= cur.calls@.len());
    assert(next.calls@.take(cur.calls@.len() as int) =~= cur.calls@) by {
        match r {
            Ok(b) => {
                if b {
                    assert(next.calls@ == cur.calls@ + (if cur.plugin_named(
                        n,
                    ).manifest.has_on_enable() {
                        seq![HookCall::EnableOf { name: n }]
                    } else {
                        Seq::<HookCall>::empty()
                    }));
                }
            },
            Err(_) => {},
        }
    }
    assert(next.calls@.take(pre.calls@.len() as int) =~= pre.calls@);
    assert(delta2 =~= delta + dj);
    // This step adds at most one invocation, of this name's hook.
    assert(dj.len() <= 1);
    assert(forall|j: int|
        0 <= j < dj.len() ==> #[trigger] dj[j] == (HookCall::EnableOf { name: n }));
    assert(dj.len() == 1 ==> cur.has_plugin(n) && cur.plugin_named(n).manifest.has_on_enable()
        && !cur.is_enabled(n));
    // Names are stable, so pre and cur agree on which plugins exist.
    assert(plugin_names(next.plugins@) == plugin_names(pre.plugins@)) by {
        if r matches Ok(true) {
            assert(plugin_names(next.plugins@) =~= plugin_names(cur.plugins@));
        }
    }
    if cur.has_plugin(n) {
        let i = choose|i: int|
            0 <= i < cur.plugins@.len() && (#[trigger] cur.plugins@[i]).manifest.name@ == n;
        assert(plugin_names(cur.plugins@)[i] == n);
        assert(plugin_names(pre.plugins@)[i] == n);
        assert(pre.plugins@[i].manifest.name@ == n);
        assert(pre.has_plugin(n));
    }
    // Entries of the grown tail are all enable hooks of listed, known names.
    assert forall|j: int| 0 <= j < delta2.len() implies (match #[trigger] delta2[j] {
        HookCall::EnableOf { name } => done.push(n).contains(name) && pre.has_plugin(name),
        _ => false,
    }) by {
        if j < delta.len() {
            assert(delta2[j] == delta[j]);
            match delta[j] {
                HookCall::EnableOf { name } => {
                    crate::text::lemma_contains_push(done, n, name);
                },
                _ => {},
            }
        } else {
            assert(delta2[j] == dj[j - delta.len()]);
            crate::text::lemma_contains_push(done, n, n);
        }
    }
    // Per-plugin bookkeeping.
    assert forall|k: int|
        #![trigger next.plugins@[k]]
        0 <= k < pre.plugins@.len() implies {
        let nk = pre.plugins@[k].manifest.name@;
        let c = count_of(delta2, HookCall::EnableOf { name: nk });
        (next.plugins@[k] == pre.plugins@[k] || next.plugins@[k] == (LuaPlugin {
            enabled: true,
            ..pre.plugins@[k]
        })) && (!done.push(n).contains(nk) ==> next.plugins@[k] == pre.plugins@[k] && c == 0) && (
        pre.plugins@[k].enabled ==> next.plugins@[k] == pre.plugins@[k] && c == 0) && c <= 1 && (
        !pre.plugins@[k].enabled && next.plugins@[k].enabled ==> c == (
        if pre.plugins@[k].manifest.has_on_enable() {
            1int
        } else {
            0int
        })) && (!pre.plugins@[k].manifest.has_on_enable() ==> c == 0)
    } by {
        let nk = pre.plugins@[k].manifest.name@;
        let ck = count_of(delta, HookCall::EnableOf { name: nk });
        let c = count_of(delta2, HookCall::EnableOf { name: nk });
        crate::trace::lemma_count_concat(delta, dj, HookCall::EnableOf { name: nk });
        assert(cur.plugins@[k] == cur.plugins@[k]);
        assert(plugin_names(cur.plugins@)[k] == plugin_names(pre.plugins@)[k]);
        assert(cur.plugins@[k].manifest.name@ == nk);
        crate::text::lemma_contains_push(done, n, nk);
        if nk == n {
            // This is the attempted plugin; it was untouched so far.
            assert(!done.contains(nk));
            assert(ck == 0);
            assert(cur.plugins@[k] == pre.plugins@[k]);
            cur.lemma_idx_is(k, n);
            assert(cur.plugin_named(n) == cur.plugins@[k]);
            if dj.len() == 1 {
                crate::trace::lemma_count_single(
                    HookCall::EnableOf { name: n },
                    HookCall::EnableOf { name: nk },
                );
                assert(dj =~= seq![HookCall::EnableOf { name: n }]);
                assert(count_of(dj, HookCall::EnableOf { name: nk }) == 1);
            } else {
                assert(dj =~= Seq::<HookCall>::empty());
                crate::trace::lemma_count_empty(HookCall::EnableOf { name: nk });
            }
            match r {
                Ok(b) => {
                    if b {
                        assert(next.plugins@ == cur.plugins@.update(
                            k,
                            (LuaPlugin { enabled: true, ..cur.plugins@[k] }),
                        ));
                        assert(next.plugins@[k] == (LuaPlugin {
                            enabled: true,
                            ..pre.plugins@[k]
                        }));
                    } else {
                        assert(next.plugins@[k] == pre.plugins@[k]);
                    }
                },
                Err(_) => {
                    assert(next.plugins@[k] == pre.plugins@[k]);
                },
            }
        } else {
            // Another plugin: neither its record nor its count moves.
            assert(count_of(dj, HookCall::EnableOf { name: nk }) == 0) by {
                if dj.len() == 1 {
                    crate::trace::lemma_count_single(
                        HookCall::EnableOf { name: n },
                        HookCall::EnableOf { name: nk },
                    );
                    assert(dj =~= seq![HookCall::EnableOf { name: n }]);
                } else {
                    assert(dj =~= Seq::<HookCall>::empty());
                    crate::trace::lemma_count_empty(HookCall::EnableOf { name: nk });
                }
            }
            assert(c == ck);
            assert(next.plugins@[k] == cur.plugins@[k]) by {
                if r matches Ok(true) {
                    cur.lemma_idx_is(
                        choose|i: int|
                            0 <= i < cur.plugins@.len() && (#[trigger] cur.plugins@[i]).manifest.name@
                                == n,
                        n,
                    );
                    assert(cur.plugins@[cur.idx_of(n)].manifest.name@ == n);
                    assert(cur.idx_of(n) != k);
                }
            }
            assert(!done.push(n).contains(nk) ==> !done.contains(nk));
        }
    }
}

/// Inserts a record: replaces the record of the same name in place, or
/// appends.
fn upsert_plugin(v: &mut Vec<LuaPlugin>, rec: LuaPlugin)
    requires
        distinct_seqs(plugin_names(old(v)@)),
    ensures
        distinct_seqs(plugin_names(final(v)@)),
        (exists|i: int|
            0 <= i < old(v)@.len() && old(v)@[i].manifest.name@ == rec.manifest.name@
                && final(v)@ == old(v)@.update(i, rec)) || final(v)@ == old(v)@.push(rec),
{
    let mut i: usize = 0;
    while i < v.len()
        invariant
            i <= v@.len(),
            v@ == old(v)@,
            forall|k: int| 0 <= k < i ==> (#[trigger] v@[k]).manifest.name@ != rec.manifest.name@,
            distinct_seqs(plugin_names(v@)),
        decreases v@.len() - i,
    {
        if str_eq(v[i].manifest.name.as_str(), rec.manifest.name.as_str()) {
            let ghost pre = v@;
            v[i] = rec;
            proof {
                assert(v@ =~= pre.update(i as int, rec));
                assert(plugin_names(v@) =~= plugin_names(pre).update(
                    i as int,
                    rec.manifest.name@,
                ));
                assert(plugin_names(pre)[i as int] == rec.manifest.name@);
                assert(plugin_names(v@) =~= plugin_names(pre));
                assert(0 <= i < old(v)@.len() && old(v)@[i as int].manifest.name@
                    == rec.manifest.name@ && v@ == old(v)@.update(i as int, rec));
            }
            return ;
        }
        i += 1;
    }
    let ghost pre = v@;
    v.push(rec);
    proof {
        assert(v@ =~= pre.push(rec));
        assert(plugin_names(v@) =~= plugin_names(pre).push(rec.manifest.name@));
        assert forall|p: int, q: int|
            0 <= p < q < plugin_names(v@).len() implies plugin_names(v@)[p] != plugin_names(
            v@,
        )[q] by {
            if q == plugin_names(v@).len() - 1 {
                assert(plugin_names(v@)[p] == plugin_names(pre)[p]);
                assert(pre[p].manifest.name@ != rec.manifest.name@);
            }
        }
    }
}

} // verus!

use vstd::prelude::*;
use crate::errors::PluginError;
use crate::json_ffi::{json_get_string_list, json_list_text, json_render_string_list, json_string_list_field};
use crate::text::{contains_name, distinct_seqs, lemma_filter_push, names_view, str_eq};
use vstd::string::StringExecFns;

verus! {

/// The auto-enable set: names of plugins that should be enabled at startup.
/// Membership is order-irrelevant; the store is rewritten in full whenever it
/// changes.
#[derive(Clone, Debug)]
pub struct PLuaConfig {
    pub enabled_plugins: Vec<String>,
}

impl PLuaConfig {
    /// The set of names, as character sequences, in storage order.
    pub open spec fn names(self) -> Seq<Seq<char>> {
        names_view(self.enabled_plugins@)
    }

    /// Well-formed: no name is listed twice.
    pub open spec fn wf(self) -> bool {
        distinct_seqs(self.names())
    }
}

impl Default for PLuaConfig {
    fn default() -> (r: Self)
        ensures
            r.names() == Seq::<Seq<char>>::empty(),
            r.wf(),
    {
        let r = PLuaConfig { enabled_plugins: Vec::new() };
        proof {
            assert(r.names() =~= Seq::<Seq<char>>::empty());
        }
        r
    }
}

/// Owns the in-memory auto-enable set. Persistence of the set is the host's
/// business: every operation that changes membership reports that it did, so
/// the caller knows the store must be rewritten.
#[derive(Clone, Debug)]
pub struct ConfigManager {
    pub config: PLuaConfig,
}

impl ConfigManager {
    pub open spec fn names(self) -> Seq<Seq<char>> {
        self.config.names()
    }

    pub open spec fn wf(self) -> bool {
        self.config.wf()
    }

    /// A manager over an empty set.
    pub fn new() -> (r: Self)
        ensures
            r.names() == Seq::<Seq<char>>::empty(),
            r.wf(),
    {
        let r = ConfigManager { config: PLuaConfig { enabled_plugins: Vec::new() } };
        proof {
            assert(r.names() =~= Seq::<Seq<char>>::empty());
        }
        r
    }

    /// Reads the persisted store: a JSON object whose "enabled_plugins" key
    /// holds an array of names. Duplicate names collapse to one. Text in any
    /// other shape is a configuration error.
    pub fn from_json(text: &str) -> (r: Result<ConfigManager, PluginError>)
        ensures
            r matches Ok(c) ==> c.wf() && (json_string_list_field(text@, "enabled_plugins"@)
                matches Some(names) && (forall|x: Seq<char>|
                c.names().contains(x) <==> names.contains(x))),
            r is Err <==> json_string_list_field(text@, "enabled_plugins"@) is None,
            r matches Err(e) ==> e matches PluginError::ConfigIo { .. },
    {
        let listed = match json_get_string_list(text, "enabled_plugins") {
            Some(v) => v,
            None => {
                return Err(
                    PluginError::ConfigIo {
                        message: "the auto-enable store does not parse".to_owned(),
                    },
                );
            },
        };
        let ghost whole = names_view(listed@);
        let mut c = ConfigManager::new();
        let mut i: usize = 0;
        proof {
            assert forall|x: Seq<char>| c.names().contains(x) <==> whole.take(0).contains(
                x,
            ) by {
                if whole.take(0).contains(x) {
                    let k = choose|k: int| 0 <= k < 0 && whole.take(0)[k] == x;
                }
                if c.names().contains(x) {
                    let k = choose|k: int|
                        0 <= k < c.names().len() && #[trigger] c.names()[k] == x;
                }
            }
        }
        while i < listed.len()
            invariant
                i <= listed@.len(),
                whole == names_view(listed@),
                c.wf(),
                forall|x: Seq<char>|
                    #![trigger c.names().contains(x)]
                    #![trigger whole.take(i as int).contains(x)]
                    c.names().contains(x) <==> whole.take(i as int).contains(x),
            decreases listed@.len() - i,
        {
            let ghost cpre = c;
            let name = listed[i].clone();
            let _ = c.enable_plugin(name);
            proof {
                let x0 = whole[i as int];
                assert(whole.take(i + 1) =~= whole.take(i as int).push(x0));
                assert forall|x: Seq<char>|
                    #![trigger c.names().contains(x)]
                    #![trigger whole.take(i + 1).contains(x)]
                    c.names().contains(x) <==> whole.take(i + 1).contains(x) by {
                    crate::text::lemma_contains_push(whole.take(i as int), x0, x);
                    if cpre.names().contains(x0) {
                        // nothing was added; membership is unchanged
                        assert(c.names() == cpre.names());
                        if whole.take(i + 1).contains(x) {
                            let k = choose|k: int|
                                0 <= k < i + 1 && #[trigger] whole.take(i + 1)[k] == x;
                            if k < i {
                                assert(whole.take(i as int)[k] == x);
                            }
                        }
                    } else {
                        assert(c.names() == cpre.names().push(x0));
                        crate::text::lemma_contains_push(cpre.names(), x0, x);
                        if c.names().contains(x) {
                            let k = choose|k: int|
                                0 <= k < c.names().len() && #[trigger] c.names()[k] == x;
                            if k < cpre.names().len() {
                                assert(cpre.names()[k] == x);
                            }
                        }
                        if whole.take(i + 1).contains(x) {
                            let k = choose|k: int|
                                0 <= k < i + 1 && #[trigger] whole.take(i + 1)[k] == x;
                            if k < i {
                                assert(whole.take(i as int)[k] == x);
                            }
                        }
                    }
                }
            }
            i += 1;
        }
        proof {
            assert(whole.take(listed@.len() as int) =~= whole);
        }
        Ok(c)
    }

    /// Renders the store for persisting: the full set, as the JSON object the
    /// reader above accepts.
    pub fn to_json(&self) -> (r: String)
        ensures
            r@ == json_list_text("enabled_plugins"@, self.names()),
    {
        json_render_string_list("enabled_plugins", &self.config.enabled_plugins)
    }

    /// Adds a plugin name to the set. Returns whether membership changed;
    /// when it did, the caller must rewrite the persisted store.
    pub fn enable_plugin(&mut self, plugin_name: String) -> (r: bool)
        requires
            old(self).wf(),
        ensures
            final(self).wf(),
            r == !old(self).names().contains(plugin_name@),
            r ==> final(self).names() == old(self).names().push(plugin_name@),
            !r ==> final(self).names() == old(self).names(),
    {
        if !contains_name(&self.config.enabled_plugins, plugin_name.as_str()) {
            let ghost pre = self.names();
            self.config.enabled_plugins.push(plugin_name);
            proof {
                assert(self.names() =~= pre.push(plugin_name@));
            }
            true
        } else {
            false
        }
    }

    /// Removes a plugin name from the set. Returns whether membership changed;
    /// when it did, the caller must rewrite the persisted store.
    #[verifier::loop_isolation(false)]
    pub fn disable_plugin(&mut self, plugin_name: &str) -> (r: bool)
        requires
            old(self).wf(),
        ensures
            final(self).wf(),
            r == old(self).names().contains(plugin_name@),
            final(self).names() == old(self).names().filter(|n: Seq<char>| n != plugin_name@),
            !final(self).names().contains(plugin_name@),
    {
        let ghost pre = self.names();
        let ghost keep = |n: Seq<char>| n != plugin_name@;
        let mut out: Vec<String> = Vec::new();
        let mut found = false;
        let mut i: usize = 0;
        proof {
            assert(pre.take(0).filter(keep) =~= Seq::<Seq<char>>::empty());
            assert(names_view(out@) =~= Seq::<Seq<char>>::empty());
        }
        while i < self.config.enabled_plugins.len()
            invariant
                i <= self.config.enabled_plugins@.len(),
                self.names() == pre,
                self.config.wf(),
                names_view(out@) == pre.take(i as int).filter(keep),
                found == pre.take(i as int).contains(plugin_name@),
                distinct_seqs(names_view(out@)),
                forall|x: Seq<char>|
                    names_view(out@).contains(x) ==> pre.take(i as int).contains(x),
                forall|k: int| 0 <= k < out@.len() ==> names_view(out@)[k] != plugin_name@,
            decreases self.config.enabled_plugins@.len() - i,
        {
            let ghost prefix = pre.take(i as int);
            let ghost outpre = names_view(out@);
            let entry = self.config.enabled_plugins[i].clone();
            proof {
                assert(entry@ == pre[i as int]);
                lemma_filter_push(prefix, pre[i as int], keep);
                assert(pre.take(i + 1) =~= prefix.push(pre[i as int]));
            }
            if str_eq(entry.as_str(), plugin_name) {
                found = true;
                proof {
                    assert(!keep(pre[i as int]));
                    assert(pre.take(i + 1)[i as int] == plugin_name@);
                    assert forall|x: Seq<char>| names_view(out@).contains(x) implies pre.take(
                        i + 1,
                    ).contains(x) by {
                        assert(prefix.contains(x));
                        let m = choose|m: int|
                            0 <= m < prefix.len() && #[trigger] prefix[m] == x;
                        assert(pre.take(i + 1)[m] == x);
                    }
                }
            } else {
                out.push(entry);
                proof {
                    assert(keep(pre[i as int]));
                    assert(names_view(out@) =~= outpre.push(pre[i as int]));
                    // The new entry differs from everything already kept:
                    // earlier positions of `pre` hold other strings.
                    assert(!outpre.contains(pre[i as int])) by {
                        if outpre.contains(pre[i as int]) {
                            let k = choose|k: int|
                                0 <= k < prefix.len() && prefix[k] == pre[i as int];
                        }
                    }
                    assert forall|x: Seq<char>| names_view(out@).contains(x) implies pre.take(
                        i + 1,
                    ).contains(x) by {
                        let k = choose|k: int|
                            0 <= k < names_view(out@).len() && #[trigger] names_view(out@)[k]
                                == x;
                        if k < outpre.len() {
                            assert(outpre[k] == x);
                            assert(outpre.contains(x));
                            assert(prefix.contains(x));
                            let m = choose|m: int|
                                0 <= m < prefix.len() && #[trigger] prefix[m] == x;
                            assert(pre.take(i + 1)[m] == x);
                        } else {
                            assert(pre.take(i + 1)[i as int] == x);
                        }
                    }
                    assert(pre.take(i + 1).contains(plugin_name@) == prefix.contains(
                        plugin_name@,
                    )) by {
                        if pre.take(i + 1).contains(plugin_name@) {
                            let k = choose|k: int|
                                0 <= k < i + 1 && #[trigger] pre.take(i + 1)[k] == plugin_name@;
                            assert(k < i);
                            assert(prefix[k] == plugin_name@);
                        }
                        if prefix.contains(plugin_name@) {
                            let k = choose|k: int|
                                0 <= k < prefix.len() && prefix[k] == plugin_name@;
                            assert(pre.take(i + 1)[k] == plugin_name@);
                        }
                    }
                }
            }
            i += 1;
        }
        proof {
            assert(pre.take(pre.len() as int) =~= pre);
        }
        self.config.enabled_plugins = out;
        proof {
            if self.names().contains(plugin_name@) {
                let k = choose|k: int|
                    0 <= k < self.names().len() && self.names()[k] == plugin_name@;
            }
        }
        found
    }
}

} // verus!

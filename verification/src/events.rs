use vstd::prelude::*;
use vstd::string::{StrSliceExecFns, StringExecFns};
use crate::errors::PluginError;
use crate::host_ffi::{char_is_alphanumeric, is_alphanum, now_millis, random_u32};
use crate::text::{distinct_seqs, lemma_filter_keep_all, lemma_filter_single, str_eq};

verus! {

/// The event kinds the bridge recognizes. Each has its own payload schema and
/// its own listener collection.
#[derive(Clone, Copy, PartialEq, Eq, Structural, Debug)]
pub enum EventType {
    PlayerJoin,
    PlayerLeave,
    PlayerChat,
    BlockPlace,
    BlockBreak,
}

/// The event type a type tag denotes, when it denotes one.
pub open spec fn event_type_of(s: Seq<char>) -> Option<EventType> {
    if s == "player_join"@ {
        Some(EventType::PlayerJoin)
    } else if s == "player_leave"@ {
        Some(EventType::PlayerLeave)
    } else if s == "player_chat"@ {
        Some(EventType::PlayerChat)
    } else if s == "block_place"@ {
        Some(EventType::BlockPlace)
    } else if s == "block_break"@ {
        Some(EventType::BlockBreak)
    } else {
        None
    }
}

/// Recognizes an event type tag. An unknown tag is no event type: a caller
/// that must reject it gets None here.
pub fn parse_event_type(s: &str) -> (r: Option<EventType>)
    ensures
        r == event_type_of(s@),
{
    if str_eq(s, "player_join") {
        Some(EventType::PlayerJoin)
    } else if str_eq(s, "player_leave") {
        Some(EventType::PlayerLeave)
    } else if str_eq(s, "player_chat") {
        Some(EventType::PlayerChat)
    } else if str_eq(s, "block_place") {
        Some(EventType::BlockPlace)
    } else if str_eq(s, "block_break") {
        Some(EventType::BlockBreak)
    } else {
        None
    }
}

/// The predicate "this character may stay in a listener id".
pub open spec fn alphanum_pred() -> spec_fn(char) -> bool {
    |c: char| is_alphanum(c)
}

/// Keeps only the alphanumeric characters of a name, in order.
#[verifier::loop_isolation(false)]
pub fn sanitize_identifier(s: &str) -> (r: String)
    ensures
        r@ == s@.filter(alphanum_pred()),
{
    let n = s.unicode_len();
    let mut out = String::new();
    let mut i: usize = 0;
    proof {
        assert(s@.take(0).filter(alphanum_pred()) =~= Seq::<char>::empty());
    }
    while i < n
        invariant
            i <= n,
            out@ == s@.take(i as int).filter(alphanum_pred()),
        decreases n - i,
    {
        let c = s.get_char(i);
        proof {
            crate::text::lemma_filter_push(s@.take(i as int), s@[i as int], alphanum_pred());
            assert(s@.take(i + 1) =~= s@.take(i as int).push(s@[i as int]));
        }
        if char_is_alphanumeric(c) {
            let piece = s.substring_char(i, i + 1);
            proof {
                assert(piece@ =~= seq![s@[i as int]]);
            }
            out.append(piece);
            proof {
                assert(out@ =~= s@.take(i as int).filter(alphanum_pred()).push(s@[i as int]));
            }
        }
        i += 1;
    }
    proof {
        assert(s@.take(n as int) =~= s@);
    }
    out
}

/// The decimal digit characters, least significant last.
pub open spec fn dec_seq(n: nat) -> Seq<char>
    decreases n,
{
    if n < 10 {
        seq![dec_digit(n)]
    } else {
        dec_seq(n / 10).push(dec_digit(n % 10))
    }
}

/// The character for one decimal digit.
pub open spec fn dec_digit(d: nat) -> char {
    if d == 0 {
        '0'
    } else if d == 1 {
        '1'
    } else if d == 2 {
        '2'
    } else if d == 3 {
        '3'
    } else if d == 4 {
        '4'
    } else if d == 5 {
        '5'
    } else if d == 6 {
        '6'
    } else if d == 7 {
        '7'
    } else if d == 8 {
        '8'
    } else {
        '9'
    }
}

/// Renders a number in decimal.
pub fn u64_to_dec(n: u64) -> (r: String)
    ensures
        r@ == dec_seq(n as nat),
    decreases n,
{
    let digits = "0123456789";
    proof {
        reveal_strlit("0123456789");
    }
    let d: u64 = n % 10;
    let piece = digits.substring_char(d as usize, (d + 1) as usize);
    proof {
        assert(piece@ =~= seq![dec_digit((n % 10) as nat)]);
    }
    if n < 10 {
        let r = piece.to_owned();
        proof {
            assert(r@ =~= dec_seq(n as nat));
        }
        r
    } else {
        let high = u64_to_dec(n / 10);
        let r = high.concat(piece);
        proof {
            assert((n / 10) as nat == (n as nat) / 10);
            assert((n % 10) as nat == (n as nat) % 10);
            assert(r@ =~= dec_seq((n as nat) / 10).push(dec_digit((n as nat) % 10)));
        }
        r
    }
}

/// The listener id derived from plugin name, callback name, timestamp and
/// random suffix: the callback name keeps only its alphanumeric characters.
pub open spec fn listener_id_seq(
    plugin: Seq<char>,
    callback: Seq<char>,
    timestamp: u64,
    random_part: u32,
) -> Seq<char> {
    "listener_"@ + plugin + "_"@ + callback.filter(alphanum_pred()) + "_"@ + dec_seq(
        timestamp as nat,
    ) + "_"@ + dec_seq(random_part as nat)
}

/// Builds a listener id from its four ingredients.
pub fn make_listener_id(
    plugin_name: &str,
    callback_name: &str,
    timestamp: u64,
    random_part: u32,
) -> (r: String)
    ensures
        r@ == listener_id_seq(plugin_name@, callback_name@, timestamp, random_part),
{
    let mut id: String = "listener_".to_owned();
    id.append(plugin_name);
    id.append("_");
    let clean = sanitize_identifier(callback_name);
    id.append(clean.as_str());
    id.append("_");
    let ts = u64_to_dec(timestamp);
    id.append(ts.as_str());
    id.append("_");
    let rd = u64_to_dec(random_part as u64);
    id.append(rd.as_str());
    id
}

/// One script-registered callback bound to one event type.
pub struct Listener {
    pub id: String,
    pub callback: mlua::Function,
}

/// The ids of a listener collection, in registration order.
pub open spec fn ids_view(v: Seq<Listener>) -> Seq<Seq<char>> {
    v.map_values(|l: Listener| l.id@)
}

/// The predicate "this listener's id differs from the given one".
pub open spec fn id_differs(id: Seq<char>) -> spec_fn(Listener) -> bool {
    |l: Listener| l.id@ != id
}

/// One listener collection per recognized event type, id-keyed. Listeners of
/// one type fire in registration order; the bridge promises no order to
/// scripts.
pub struct ListenerSet {
    pub player_join: Vec<Listener>,
    pub player_leave: Vec<Listener>,
    pub player_chat: Vec<Listener>,
    pub block_place: Vec<Listener>,
    pub block_break: Vec<Listener>,
}

impl ListenerSet {
    /// The listeners registered for one event type.
    pub open spec fn list_of(self, t: EventType) -> Seq<Listener> {
        match t {
            EventType::PlayerJoin => self.player_join@,
            EventType::PlayerLeave => self.player_leave@,
            EventType::PlayerChat => self.player_chat@,
            EventType::BlockPlace => self.block_place@,
            EventType::BlockBreak => self.block_break@,
        }
    }

    /// Within each event type, ids are unique.
    pub open spec fn wf(self) -> bool {
        forall|t: EventType| distinct_seqs(ids_view(#[trigger] self.list_of(t)))
    }

    pub fn new() -> (r: Self)
        ensures
            r.wf(),
            forall|t: EventType| (#[trigger] r.list_of(t)) == Seq::<Listener>::empty(),
    {
        let r = ListenerSet {
            player_join: Vec::new(),
            player_leave: Vec::new(),
            player_chat: Vec::new(),
            block_place: Vec::new(),
            block_break: Vec::new(),
        };
        proof {
            assert forall|t: EventType| (#[trigger] r.list_of(t)) == Seq::<Listener>::empty() by {
                assert(r.list_of(t) =~= Seq::<Listener>::empty());
            }
            assert forall|t: EventType| distinct_seqs(ids_view(#[trigger] r.list_of(t))) by {
                assert(ids_view(r.list_of(t)) =~= Seq::<Seq<char>>::empty());
            }
        }
        r
    }

    /// Registers a callback under an explicitly supplied timestamp and random
    /// suffix. An unrecognized event type is rejected and nothing changes; a
    /// recognized one gets the derived id, replacing any listener that already
    /// carries it.
    pub fn register_listener_with(
        &mut self,
        event_type: &str,
        plugin_name: &str,
        callback_name: &str,
        timestamp: u64,
        random_part: u32,
        callback: mlua::Function,
    ) -> (r: Result<String, PluginError>)
        requires
            old(self).wf(),
        ensures
            final(self).wf(),
            event_type_of(event_type@) is None ==> (r matches Err(e) && (e matches
                PluginError::UnknownEventType { name } && name@ == event_type@) && *final(self)
                == *old(self)),
            event_type_of(event_type@) matches Some(t) ==> r matches Ok(id) && id@
                == listener_id_seq(plugin_name@, callback_name@, timestamp, random_part) && final(self).list_of(t) == old(self).list_of(t).filter(id_differs(id@)).push(
                (Listener { id: id, callback: callback }),
            ) && (forall|u: EventType| u != t ==> final(self).list_of(u) == old(self).list_of(u)),
    {
        let t = match parse_event_type(event_type) {
            Some(t) => t,
            None => {
                return Err(PluginError::UnknownEventType { name: event_type.to_owned() });
            },
        };
        let id = make_listener_id(plugin_name, callback_name, timestamp, random_part);
        let entry = Listener { id: id.clone(), callback };
        proof {
            assert(distinct_seqs(ids_view(self.list_of(EventType::PlayerJoin))));
            assert(distinct_seqs(ids_view(self.list_of(EventType::PlayerLeave))));
            assert(distinct_seqs(ids_view(self.list_of(EventType::PlayerChat))));
            assert(distinct_seqs(ids_view(self.list_of(EventType::BlockPlace))));
            assert(distinct_seqs(ids_view(self.list_of(EventType::BlockBreak))));
        }
        match t {
            EventType::PlayerJoin => insert_listener(&mut self.player_join, entry),
            EventType::PlayerLeave => insert_listener(&mut self.player_leave, entry),
            EventType::PlayerChat => insert_listener(&mut self.player_chat, entry),
            EventType::BlockPlace => insert_listener(&mut self.block_place, entry),
            EventType::BlockBreak => insert_listener(&mut self.block_break, entry),
        }
        proof {
            assert forall|u: EventType| distinct_seqs(ids_view(#[trigger] self.list_of(u))) by {}
        }
        Ok(id)
    }

    /// Registers a callback, deriving the id from the clock and a random
    /// draw. Of the id only its shape is promised; everything else matches
    /// registration with explicit ingredients.
    pub fn register_listener(
        &mut self,
        event_type: &str,
        plugin_name: &str,
        callback_name: &str,
        callback: mlua::Function,
    ) -> (r: Result<String, PluginError>)
        requires
            old(self).wf(),
        ensures
            final(self).wf(),
            event_type_of(event_type@) is None ==> (r matches Err(e) && (e matches
                PluginError::UnknownEventType { name } && name@ == event_type@) && *final(self)
                == *old(self)),
            event_type_of(event_type@) matches Some(t) ==> r matches Ok(id) && (exists|
                ts: u64,
                rp: u32,
            |
                id@ == listener_id_seq(plugin_name@, callback_name@, ts, rp)) && final(self).list_of(t) == old(self).list_of(t).filter(id_differs(id@)).push(
                (Listener { id: id, callback: callback }),
            ) && (forall|u: EventType| u != t ==> final(self).list_of(u) == old(self).list_of(u)),
    {
        let ts = now_millis();
        let rp = random_u32();
        let r = self.register_listener_with(
            event_type,
            plugin_name,
            callback_name,
            ts,
            rp,
            callback,
        );
        proof {
            if event_type_of(event_type@) is Some && r is Ok {
                let id = r->Ok_0;
                assert(id@ == listener_id_seq(plugin_name@, callback_name@, ts, rp));
            }
        }
        r
    }

    /// Drops the listener with the given id from one event type's collection.
    /// An unrecognized event type is rejected; a recognized one always answers
    /// true, whether or not such a listener existed.
    pub fn unregister_listener(&mut self, event_type: &str, listener_id: &str) -> (r: Result<
        bool,
        PluginError,
    >)
        requires
            old(self).wf(),
        ensures
            final(self).wf(),
            event_type_of(event_type@) is None ==> (r matches Err(e) && (e matches
                PluginError::UnknownEventType { name } && name@ == event_type@) && *final(self)
                == *old(self)),
            event_type_of(event_type@) matches Some(t) ==> r matches Ok(b) && b && final(self).list_of(t) == old(self).list_of(t).filter(id_differs(listener_id@)) && (forall|
                u: EventType,
            | u != t ==> final(self).list_of(u) == old(self).list_of(u)),
    {
        let t = match parse_event_type(event_type) {
            Some(t) => t,
            None => {
                return Err(PluginError::UnknownEventType { name: event_type.to_owned() });
            },
        };
        proof {
            assert(distinct_seqs(ids_view(self.list_of(EventType::PlayerJoin))));
            assert(distinct_seqs(ids_view(self.list_of(EventType::PlayerLeave))));
            assert(distinct_seqs(ids_view(self.list_of(EventType::PlayerChat))));
            assert(distinct_seqs(ids_view(self.list_of(EventType::BlockPlace))));
            assert(distinct_seqs(ids_view(self.list_of(EventType::BlockBreak))));
        }
        match t {
            EventType::PlayerJoin => {
                remove_listener(&mut self.player_join, listener_id);
            },
            EventType::PlayerLeave => {
                remove_listener(&mut self.player_leave, listener_id);
            },
            EventType::PlayerChat => {
                remove_listener(&mut self.player_chat, listener_id);
            },
            EventType::BlockPlace => {
                remove_listener(&mut self.block_place, listener_id);
            },
            EventType::BlockBreak => {
                remove_listener(&mut self.block_break, listener_id);
            },
        }
        proof {
            assert forall|u: EventType| distinct_seqs(ids_view(#[trigger] self.list_of(u))) by {}
        }
        Ok(true)
    }
}

/// Removes the listener carrying `id`, keeping all others in order.
#[verifier::loop_isolation(false)]
fn remove_listener(v: &mut Vec<Listener>, id: &str) -> (r: bool)
    requires
        distinct_seqs(ids_view(old(v)@)),
    ensures
        final(v)@ == old(v)@.filter(id_differs(id@)),
        distinct_seqs(ids_view(final(v)@)),
        r == ids_view(old(v)@).contains(id@),
        !ids_view(final(v)@).contains(id@),
{
    let ghost pre = v@;
    let mut i: usize = 0;
    while i < v.len()
        invariant
            i <= pre.len(),
            v@ == pre,
            forall|k: int| 0 <= k < i ==> ids_view(pre)[k] != id@,
        decreases pre.len() - i,
    {
        if str_eq(v[i].id.as_str(), id) {
            proof {
                assert(ids_view(pre)[i as int] == id@);
            }
            v.remove(i);
            proof {
                let a = pre.subrange(0, i as int);
                let b = seq![pre[i as int]];
                let c = pre.subrange(i + 1, pre.len() as int);
                assert(pre =~= a + b + c);
                Seq::filter_distributes_over_add(a + b, c, id_differs(id@));
                Seq::filter_distributes_over_add(a, b, id_differs(id@));
                assert forall|k: int| 0 <= k < a.len() implies id_differs(id@)(a[k]) by {
                    assert(a[k] == pre[k]);
                    assert(ids_view(pre)[k] == pre[k].id@);
                }
                lemma_filter_keep_all(a, id_differs(id@));
                lemma_filter_single(pre[i as int], id_differs(id@));
                assert forall|k: int| 0 <= k < c.len() implies id_differs(id@)(c[k]) by {
                    assert(ids_view(pre)[i + 1 + k] != ids_view(pre)[i as int]);
                    assert(c[k] == pre[i + 1 + k]);
                }
                lemma_filter_keep_all(c, id_differs(id@));
                assert(v@ =~= a + c);
                assert(pre.filter(id_differs(id@)) =~= a + c);
                assert(ids_view(v@) =~= ids_view(a) + ids_view(c));
                assert forall|k: int| 0 <= k < ids_view(v@).len() implies ids_view(v@)[k]
                    != id@ by {
                    if k < a.len() {
                        assert(ids_view(v@)[k] == ids_view(pre)[k]);
                    } else {
                        assert(ids_view(v@)[k] == ids_view(pre)[k + 1]);
                    }
                }
                assert forall|p: int, q: int|
                    0 <= p < q < ids_view(v@).len() implies ids_view(v@)[p] != ids_view(
                    v@,
                )[q] by {
                    let pp = if p < a.len() {
                        p
                    } else {
                        p + 1
                    };
                    let qq = if q < a.len() {
                        q
                    } else {
                        q + 1
                    };
                    assert(ids_view(v@)[p] == ids_view(pre)[pp]);
                    assert(ids_view(v@)[q] == ids_view(pre)[qq]);
                }
            }
            return true;
        }
        i += 1;
    }
    proof {
        assert forall|k: int| 0 <= k < pre.len() implies id_differs(id@)(pre[k]) by {
            assert(ids_view(pre)[k] != id@);
        }
        lemma_filter_keep_all(pre, id_differs(id@));
        if ids_view(pre).contains(id@) {
            let k = choose|k: int|
                0 <= k < ids_view(pre).len() && #[trigger] ids_view(pre)[k] == id@;
        }
    }
    false
}

/// Replaces or adds the listener carrying `entry.id`, appending it at the end.
fn insert_listener(v: &mut Vec<Listener>, entry: Listener)
    requires
        distinct_seqs(ids_view(old(v)@)),
    ensures
        final(v)@ == old(v)@.filter(id_differs(entry.id@)).push(entry),
        distinct_seqs(ids_view(final(v)@)),
{
    let ghost eid = entry.id@;
    remove_listener(v, entry.id.as_str());
    let ghost mid = v@;
    v.push(entry);
    proof {
        assert(v@ =~= mid.push(entry));
        assert(ids_view(v@) =~= ids_view(mid).push(eid));
        assert forall|p: int, q: int|
            0 <= p < q < ids_view(v@).len() implies ids_view(v@)[p] != ids_view(v@)[q] by {
            if q == ids_view(v@).len() - 1 {
                assert(ids_view(v@)[p] == ids_view(mid)[p]);
                assert(ids_view(mid)[p] != eid);
            }
        }
    }
}

} // verus!

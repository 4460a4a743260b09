//! Hook matchers, and the configuration that announces their callbacks to the peer.

use crate::ident;
use crate::json;
use crate::json::{Json, JsonView};
use crate::model;
use crate::table;
use vstd::prelude::*;

verus! {

/// Callbacks for one event, and the tools that they are meant for.
#[derive(Debug)]
pub struct HookMatcher {
    /// The pattern that names the tools; none stands for all of them.
    pub matcher: Option<String>,
    /// The handles of the callbacks.
    pub hooks: Vec<u64>,
    /// How long a callback may take, as a JSON number.
    pub timeout: Option<Json>,
}

/// What a [`HookMatcher`] says.
pub struct HookMatcherView {
    pub matcher: Option<Seq<char>>,
    pub hooks: Seq<u64>,
    pub timeout: Option<JsonView>,
}

impl View for HookMatcher {
    type V = HookMatcherView;

    open spec fn view(&self) -> HookMatcherView {
        HookMatcherView {
            matcher: model::option_view(self.matcher),
            hooks: self.hooks@,
            timeout: model::option_view(self.timeout),
        }
    }
}

/// What a list of matchers says.
pub open spec fn matchers_view(matchers: Seq<HookMatcher>) -> Seq<HookMatcherView> {
    matchers.map_values(|matcher: HookMatcher| matcher@)
}

/// The matchers of one event.
pub struct EventHooksView {
    pub event: Seq<char>,
    pub matchers: Seq<HookMatcherView>,
}

/// What a list of events with their matchers says.
pub open spec fn events_view(events: Seq<(String, Vec<HookMatcher>)>) -> Seq<EventHooksView> {
    events.map_values(
        |entry: (String, Vec<HookMatcher>)|
            (EventHooksView { event: entry.0@, matchers: matchers_view(entry.1@) }),
    )
}

/// The number that a counter of 64 bits shows `steps` steps after `first`.
pub open spec fn counted(first: u64, steps: nat) -> u64 {
    ((first + steps) % 0x1_0000_0000_0000_0000) as u64
}

/// The callbacks of a list of matchers, in order.
pub open spec fn matchers_hooks(matchers: Seq<HookMatcherView>) -> Seq<u64>
    decreases matchers.len(),
{
    if matchers.len() == 0 {
        Seq::empty()
    } else {
        matchers_hooks(matchers.drop_last()) + matchers.last().hooks
    }
}

/// The callbacks of a list of events, in order.
pub open spec fn events_hooks(events: Seq<EventHooksView>) -> Seq<u64>
    decreases events.len(),
{
    if events.len() == 0 {
        Seq::empty()
    } else {
        events_hooks(events.drop_last()) + matchers_hooks(events.last().matchers)
    }
}

/// The table of callbacks after `hooks` were entered under the identifiers that count on from
/// `first`.
pub open spec fn entered(
    entries: Map<Seq<char>, u64>,
    first: u64,
    hooks: Seq<u64>,
) -> Map<Seq<char>, u64>
    decreases hooks.len(),
{
    if hooks.len() == 0 {
        entries
    } else {
        entered(entries, first, hooks.drop_last()).insert(
            ident::hook_id(counted(first, (hooks.len() - 1) as nat)),
            hooks.last(),
        )
    }
}

/// The identifiers of `count` callbacks that count on from `first`.
pub open spec fn callback_ids(first: u64, count: nat) -> Seq<JsonView> {
    Seq::new(count, |k: int| JsonView::String(ident::hook_id(counted(first, k as nat))))
}

/// The configuration of one matcher, whose callbacks count on from `first`.
pub open spec fn matcher_config(matcher: HookMatcherView, first: u64) -> JsonView {
    let config = JsonView::object()
        .with("matcher"@, JsonView::optional_text(matcher.matcher))
        .with("hookCallbackIds"@, JsonView::Array(callback_ids(first, matcher.hooks.len())));
    match matcher.timeout {
        Some(timeout) => config.with("timeout"@, timeout),
        None => config,
    }
}

/// The configuration of a list of matchers, whose callbacks count on from `first`.
pub open spec fn matchers_config(matchers: Seq<HookMatcherView>, first: u64) -> Seq<JsonView>
    decreases matchers.len(),
{
    if matchers.len() == 0 {
        Seq::empty()
    } else {
        let before = matchers.drop_last();
        matchers_config(before, first).push(
            matcher_config(matchers.last(), counted(first, matchers_hooks(before).len())),
        )
    }
}

/// The configuration of a list of events, whose callbacks count on from `first`.
pub open spec fn events_config(events: Seq<EventHooksView>, first: u64) -> JsonView
    decreases events.len(),
{
    if events.len() == 0 {
        JsonView::object()
    } else {
        let before = events.drop_last();
        events_config(before, first).with(
            events.last().event,
            JsonView::Array(
                matchers_config(
                    events.last().matchers,
                    counted(first, events_hooks(before).len()),
                ),
            ),
        )
    }
}

/// How many callbacks stand before those of matcher `j` of event `i`.
pub open spec fn callbacks_before(events: Seq<EventHooksView>, i: int, j: int) -> nat {
    events_hooks(events.take(i)).len() + matchers_hooks(events[i].matchers.take(j)).len()
}

/// Steps of a counter add up.
pub proof fn lemma_counted(first: u64, steps: nat, more: nat)
    ensures
        counted(counted(first, steps), more) == counted(first, steps + more),
        counted(first, 0) == first,
{
}

/// Entering a list of callbacks is entering its first part and then the rest.
pub proof fn lemma_entered_add(
    entries: Map<Seq<char>, u64>,
    first: u64,
    head: Seq<u64>,
    tail: Seq<u64>,
)
    ensures
        entered(entries, first, head + tail) == entered(
            entered(entries, first, head),
            counted(first, head.len()),
            tail,
        ),
    decreases tail.len(),
{
    if tail.len() == 0 {
        assert(head + tail =~= head);
    } else {
        lemma_entered_add(entries, first, head, tail.drop_last());
        assert((head + tail).drop_last() =~= head + tail.drop_last());
        lemma_counted(first, head.len(), (tail.len() - 1) as nat);
    }
}

/// The callbacks that can be invoked, and the number that the next one gets.
pub struct HookTable {
    entries: dashmap::DashMap<String, u64>,
    next: u64,
}

/// What a [`HookTable`] holds.
pub struct HookTableView {
    pub entries: Map<Seq<char>, u64>,
    pub next: u64,
}

impl View for HookTable {
    type V = HookTableView;

    closed spec fn view(&self) -> HookTableView {
        HookTableView { entries: table::table_entries(self.entries), next: self.next }
    }
}

impl HookTableView {
    /// The table after `hooks` were entered in order.
    pub open spec fn enter(self, hooks: Seq<u64>) -> HookTableView {
        HookTableView {
            entries: entered(self.entries, self.next, hooks),
            next: counted(self.next, hooks.len()),
        }
    }
}

/// Entering two lists of callbacks one after the other is entering them at once.
pub proof fn lemma_enter_add(hooks: HookTableView, head: Seq<u64>, tail: Seq<u64>)
    ensures
        hooks.enter(head).enter(tail) == hooks.enter(head + tail),
{
    lemma_entered_add(hooks.entries, hooks.next, head, tail);
    lemma_counted(hooks.next, head.len(), tail.len());
}

impl HookTable {
    /// A table without callbacks.
    pub fn new() -> (r: HookTable)
        ensures
            (r@ == HookTableView { entries: Map::<Seq<char>, u64>::empty(), next: 0 }),
    {
        HookTable { entries: table::new_table(), next: 0 }
    }

    /// The callback that an identifier stands for.
    pub fn find(&self, id: &str) -> (r: Option<u64>)
        ensures
            r == table::entry_of(self@.entries, id@),
    {
        table::find_entry(&self.entries, id)
    }

    /// Enters the callbacks of one matcher and returns their identifiers.
    fn enter_callbacks(&mut self, hooks: &Vec<u64>) -> (r: Vec<Json>)
        ensures
            final(self)@ == old(self)@.enter(hooks@),
            json::array_tree(r@) == callback_ids(old(self)@.next, hooks@.len()),
    {
        let ghost first = self@.next;
        let mut ids: Vec<Json> = Vec::new();
        let mut i: usize = 0;
        proof {
            lemma_counted(first, 0, 0);
            assert(hooks@.take(0) =~= Seq::<u64>::empty());
            assert(json::array_tree(ids@) =~= callback_ids(first, 0));
        }
        while i < hooks.len()
            invariant
                i <= hooks.len(),
                first == old(self)@.next,
                self@ == old(self)@.enter(hooks@.take(i as int)),
                json::array_tree(ids@) == callback_ids(first, i as nat),
            decreases hooks.len() - i,
        {
            let id = ident::hook_id_text(self.next);
            let item = Json::String(id.clone());
            table::insert_entry(&mut self.entries, id, hooks[i]);
            self.next = self.next.wrapping_add(1);
            proof {
                json::lemma_array_push(ids@, item);
                assert(callback_ids(first, (i + 1) as nat) =~= callback_ids(first, i as nat).push(
                    item@,
                ));
                assert(hooks@.take(i + 1).drop_last() =~= hooks@.take(i as int));
                lemma_counted(first, i as nat, 1);
            }
            ids.push(item);
            i += 1;
        }
        assert(hooks@.take(i as int) =~= hooks@);
        ids
    }

    /// Enters the callbacks of the matchers of one event and returns their configuration.
    fn enter_matchers(&mut self, matchers: &Vec<HookMatcher>) -> (r: Vec<Json>)
        ensures
            final(self)@ == old(self)@.enter(matchers_hooks(matchers_view(matchers@))),
            json::array_tree(r@) == matchers_config(matchers_view(matchers@), old(self)@.next),
    {
        let ghost all = matchers_view(matchers@);
        let ghost first = self@.next;
        let mut configs: Vec<Json> = Vec::new();
        let mut i: usize = 0;
        proof {
            lemma_counted(first, 0, 0);
            assert(all.take(0) =~= Seq::<HookMatcherView>::empty());
            assert(json::array_tree(configs@) =~= matchers_config(all.take(0), first));
        }
        while i < matchers.len()
            invariant
                i <= matchers.len(),
                all == matchers_view(matchers@),
                first == old(self)@.next,
                self@ == old(self)@.enter(matchers_hooks(all.take(i as int))),
                json::array_tree(configs@) == matchers_config(all.take(i as int), first),
            decreases matchers.len() - i,
        {
            let matcher = &matchers[i];
            let ghost before = matchers_hooks(all.take(i as int));
            let ids = self.enter_callbacks(&matcher.hooks);
            let pattern = match &matcher.matcher {
                Some(text) => Json::text(text.as_str()),
                None => Json::Null,
            };
            let config = Json::object()
                .with("matcher", pattern)
                .with("hookCallbackIds", Json::Array(ids));
            let config = match &matcher.timeout {
                Some(timeout) => config.with("timeout", timeout.clone()),
                None => config,
            };
            proof {
                assert(all[i as int] == matcher@);
                assert(all.take(i + 1).drop_last() =~= all.take(i as int));
                lemma_enter_add(old(self)@, before, matcher.hooks@);
                json::lemma_array_push(configs@, config);
            }
            configs.push(config);
            i += 1;
        }
        assert(all.take(i as int) =~= all);
        configs
    }

    /// Enters the callbacks of all events and returns the configuration that announces them.
    pub fn enter_events(&mut self, events: &Vec<(String, Vec<HookMatcher>)>) -> (r: Json)
        ensures
            final(self)@ == old(self)@.enter(events_hooks(events_view(events@))),
            r@ == events_config(events_view(events@), old(self)@.next),
    {
        let ghost all = events_view(events@);
        let ghost first = self@.next;
        let mut config = Json::object();
        let mut i: usize = 0;
        proof {
            lemma_counted(first, 0, 0);
            assert(all.take(0) =~= Seq::<EventHooksView>::empty());
        }
        while i < events.len()
            invariant
                i <= events.len(),
                all == events_view(events@),
                first == old(self)@.next,
                self@ == old(self)@.enter(events_hooks(all.take(i as int))),
                config@ == events_config(all.take(i as int), first),
            decreases events.len() - i,
        {
            let ghost before = events_hooks(all.take(i as int));
            let matchers = &events[i].1;
            let configs = self.enter_matchers(matchers);
            config = config.with(events[i].0.as_str(), Json::Array(configs));
            proof {
                assert(all.take(i + 1).drop_last() =~= all.take(i as int));
                lemma_enter_add(old(self)@, before, matchers_hooks(all[i as int].matchers));
            }
            i += 1;
        }
        assert(all.take(i as int) =~= all);
        config
    }
}

} // verus!

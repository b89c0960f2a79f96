//! The session: what a crawl supervisor keeps track of besides the engine.
//!
//! A [`Website`] owns the table of subscriptions, the table of detached
//! crawls, the buffer of collected records and two flags. It does not run
//! anything itself. Each of its methods updates the books and tells the
//! runtime what to do with the engine: a [`RunPlan`] for a crawl, a
//! [`StopReport`] for a stop, an [`ExportPlan`] for an export.

use crate::cron::Cron;
use crate::export::export_file;
use crate::export::joined_lines;
use crate::export::parent_directory;
use crate::export::plan_export;
use crate::export::ExportPlan;
use crate::page::lemma_snapshot_is_raw_or_text;
use crate::page::utf8_lossy;
use crate::page::FetchedPage;
use crate::page::NPage;
use crate::records::deserialize_all;
use crate::records::json_text;
use crate::records::record_value;
use crate::records::serialize;
use crate::records::SerializationError;
use crate::registry::apply;
use crate::registry::ascending;
use crate::registry::next_id;
use crate::registry::tasks_without;
use crate::registry::Registry;
use crate::registry::TableOp;
use serde_json::Value;
use spider::tokio::task::JoinHandle;
use vstd::prelude::*;

verus! {

/// The entry point of the engine that a run drives.
#[derive(Debug, Clone, Copy, PartialEq, Eq, Structural)]
pub enum EngineCall {
    /// Crawl with full rendering.
    Crawl,
    /// Crawl over plain HTTP.
    CrawlRaw,
    /// Crawl over plain HTTP and render a page where it needs it.
    CrawlSmart,
    /// Scrape with full rendering.
    Scrape,
    /// Scrape over plain HTTP.
    ScrapeRaw,
}

/// Whether the page events of a run are relayed to a listener of the
/// caller's.
#[derive(Debug, Clone, Copy, PartialEq, Eq, Structural)]
pub enum Relay {
    /// No listener was given: nothing is relayed.
    Absent,
    /// A task relays the events. It is a subscription like any other: it is
    /// kept in the table of subscriptions under the next id, where
    /// `unsubscribe` finds it.
    Registered,
}

/// How one call of `crawl`, `crawl_smart` or `scrape` is carried out.
#[derive(Debug, Clone, Copy, PartialEq, Eq, Structural)]
pub struct RunPlan {
    /// The entry point of the engine to drive.
    pub call: EngineCall,
    /// Whether a clone of the engine is driven by a task of its own, which
    /// is kept in the table of crawls, while the caller goes on. Otherwise
    /// the caller waits for the engine.
    pub detached: bool,
    /// What becomes of the relay task.
    pub relay: Relay,
}

/// What a stop found.
#[derive(Debug, Clone, Copy, PartialEq, Eq, Structural)]
pub struct StopReport {
    /// Whether a crawl task was there to cancel.
    pub existed: bool,
    /// Whether the session was in the background, in which case the
    /// engine's work on the session's url is shut down as a whole.
    pub shutdown: bool,
}

/// A flag counts as given when it is there and set.
pub open spec fn is_set(flag: Option<bool>) -> bool {
    flag == Some(true)
}

/// How events are delivered: with a listener they are relayed, in the
/// foreground as in the background.
pub open spec fn relay_for(listener: bool) -> Relay {
    if listener {
        Relay::Registered
    } else {
        Relay::Absent
    }
}

/// The plan of a crawl.
pub open spec fn crawl_plan(listener: bool, background: Option<bool>, headless: Option<bool>) -> RunPlan {
    RunPlan {
        call: if is_set(headless) {
            EngineCall::Crawl
        } else {
            EngineCall::CrawlRaw
        },
        detached: is_set(background),
        relay: relay_for(listener),
    }
}

/// The plan of a smart crawl.
pub open spec fn crawl_smart_plan(listener: bool, background: Option<bool>) -> RunPlan {
    RunPlan {
        call: EngineCall::CrawlSmart,
        detached: is_set(background),
        relay: relay_for(listener),
    }
}

/// The plan of a scrape.
pub open spec fn scrape_plan(listener: bool, background: Option<bool>, headless: Option<bool>) -> RunPlan {
    RunPlan {
        call: if is_set(headless) {
            EngineCall::Scrape
        } else {
            EngineCall::ScrapeRaw
        },
        detached: is_set(background),
        relay: relay_for(listener),
    }
}

/// The ids of a table after a handle was registered, if one was given.
pub open spec fn registered(ids: Seq<u32>, given: bool) -> Seq<u32> {
    if given {
        apply(ids, TableOp::Register)
    } else {
        ids
    }
}

/// The call on a table that a cancellation makes: of one id, or of all.
pub open spec fn cancel_op(id: Option<u32>) -> TableOp {
    match id {
        Some(one) => TableOp::CancelOne(one),
        None => TableOp::CancelAll,
    }
}

/// The tasks of a table after a task was registered, if one was given.
pub open spec fn registered_tasks(tasks: Seq<JoinHandle<()>>, given: Option<JoinHandle<()>>) -> Seq<
    JoinHandle<()>,
> {
    match given {
        Some(task) => tasks.push(task),
        None => tasks,
    }
}

/// The tasks of a table after a cancellation: of the task under one id, or
/// of all.
pub open spec fn cancelled_tasks(ids: Seq<u32>, tasks: Seq<JoinHandle<()>>, id: Option<u32>) -> Seq<
    JoinHandle<()>,
> {
    match id {
        Some(one) => tasks_without(ids, tasks, one),
        None => Seq::empty(),
    }
}

/// Whether a cancellation finds anything to cancel.
pub open spec fn cancels_any(ids: Seq<u32>, id: Option<u32>) -> bool {
    match id {
        Some(one) => ids.contains(one),
        None => ids.len() > 0,
    }
}

/// How events are delivered: see [`relay_for`].
fn relay(listener: bool) -> (relay: Relay)
    ensures
        relay == relay_for(listener),
{
    if listener {
        Relay::Registered
    } else {
        Relay::Absent
    }
}

/// Whether a flag is there and set.
fn set(flag: Option<bool>) -> (given: bool)
    ensures
        given == is_set(flag),
{
    match flag {
        Some(value) => value,
        None => false,
    }
}

/// How many page events the channel of one subscriber holds: half the
/// size of the buffer that the session is configured with.
pub fn subscription_capacity(buffer: usize) -> (capacity: usize)
    ensures
        capacity == buffer / 2,
{
    buffer / 2
}

/// A session as a plain value.
pub struct SessionView {
    /// The url that the session is about.
    pub url: Seq<char>,
    /// Whether page records carry the body as bytes and not as text.
    pub raw_content: bool,
    /// Whether a run was sent to the background and not stopped since.
    pub running_in_background: bool,
    /// The ids of the live subscriptions, oldest first.
    pub subscriptions: Seq<u32>,
    /// The relay tasks of the live subscriptions, each at the place of its
    /// id.
    pub subscription_tasks: Seq<JoinHandle<()>>,
    /// The ids of the live detached crawls, oldest first.
    pub crawls: Seq<u32>,
    /// The tasks that drive the live detached crawls, each at the place of
    /// its id.
    pub crawl_tasks: Seq<JoinHandle<()>>,
    /// The collected records, oldest first.
    pub records: Seq<Seq<u8>>,
}

/// A crawl session.
pub struct Website {
    url: String,
    subscription_handles: Registry,
    crawl_handles: Registry,
    raw_content: bool,
    collected_data: Vec<Vec<u8>>,
    running_in_background: bool,
}

impl View for Website {
    type V = SessionView;

    closed spec fn view(&self) -> SessionView {
        SessionView {
            url: self.url@,
            raw_content: self.raw_content,
            running_in_background: self.running_in_background,
            subscriptions: self.subscription_handles@,
            subscription_tasks: self.subscription_handles.tasks(),
            crawls: self.crawl_handles@,
            crawl_tasks: self.crawl_handles.tasks(),
            records: self.collected_data.deep_view(),
        }
    }
}

impl Website {
    /// The session's invariant: in both tables ids ascend and each id has
    /// its task.
    pub open spec fn wf(&self) -> bool {
        &&& ascending(self@.subscriptions)
        &&& self@.subscription_tasks.len() == self@.subscriptions.len()
        &&& ascending(self@.crawls)
        &&& self@.crawl_tasks.len() == self@.crawls.len()
    }

    /// A new session on `url`. Page records carry the body as text unless
    /// `raw_content` is given and set.
    pub fn new(url: String, raw_content: Option<bool>) -> (website: Website)
        ensures
            website.wf(),
            website@ == (SessionView {
                url: url@,
                raw_content: is_set(raw_content),
                running_in_background: false,
                subscriptions: Seq::empty(),
                subscription_tasks: Seq::empty(),
                crawls: Seq::empty(),
                crawl_tasks: Seq::empty(),
                records: Seq::empty(),
            }),
    {
        let website = Website {
            url,
            subscription_handles: Registry::new(),
            crawl_handles: Registry::new(),
            raw_content: set(raw_content),
            collected_data: Vec::new(),
            running_in_background: false,
        };
        assert(website.collected_data.deep_view() =~= Seq::empty());
        website
    }

    /// The url that the session is about.
    pub fn url(&self) -> (url: &str)
        ensures
            url@ == self@.url,
    {
        self.url.as_str()
    }

    /// Whether page records carry the body as bytes.
    pub fn raw_content(&self) -> (raw: bool)
        ensures
            raw == self@.raw_content,
    {
        self.raw_content
    }

    /// Whether a run was sent to the background and not stopped since.
    pub fn running_in_background(&self) -> (running: bool)
        ensures
            running == self@.running_in_background,
    {
        self.running_in_background
    }

    /// The ids of the live subscriptions, oldest first.
    pub fn subscriptions(&self) -> (ids: Vec<u32>)
        ensures
            ids@ == self@.subscriptions,
    {
        self.subscription_handles.ids()
    }

    /// The ids of the live detached crawls, oldest first.
    pub fn crawls(&self) -> (ids: Vec<u32>)
        ensures
            ids@ == self@.crawls,
    {
        self.crawl_handles.ids()
    }

    /// Whether another subscription can be given an id.
    pub fn can_subscribe(&self) -> (room: bool)
        ensures
            room == (next_id(self@.subscriptions) <= u32::MAX),
    {
        self.subscription_handles.has_room()
    }

    /// Whether another detached crawl can be given an id.
    pub fn can_detach(&self) -> (room: bool)
        ensures
            room == (next_id(self@.crawls) <= u32::MAX),
    {
        self.crawl_handles.has_room()
    }

    /// The collected records as they are stored, oldest first.
    pub fn records(&self) -> (records: &Vec<Vec<u8>>)
        ensures
            records.deep_view() == self@.records,
    {
        &self.collected_data
    }

    /// Puts a record behind the collected ones.
    pub fn append_record(&mut self, record: Vec<u8>)
        ensures
            final(self)@ == (SessionView { records: old(self)@.records.push(record@), ..old(self)@ }),
    {
        let ghost text = record@;
        self.collected_data.push(record);
        assert(self.collected_data.deep_view() =~~= old(self).collected_data.deep_view().push(text));
    }

    /// Stores a value among the collected records, as its JSON text.
    /// `None` stands for a value of which the caller could make no
    /// document; it is refused, and so is a document that has no text.
    pub fn push_data(&mut self, value: Option<&Value>) -> (pushed: Result<(), SerializationError>)
        ensures
            match value {
                Some(document) => match json_text(*document) {
                    Some(text) => pushed is Ok && final(self)@ == (SessionView {
                        records: old(self)@.records.push(text),
                        ..old(self)@
                    }),
                    None => pushed is Err && final(self)@ == old(self)@,
                },
                None => pushed is Err && final(self)@ == old(self)@,
            },
    {
        match value {
            Some(document) => match serialize(document) {
                Ok(record) => {
                    self.append_record(record);
                    Ok(())
                },
                Err(error) => Err(error),
            },
            None => Err(SerializationError {  }),
        }
    }

    /// Forgets the collected records.
    pub fn clear_data(&mut self)
        ensures
            final(self)@ == (SessionView { records: Seq::empty(), ..old(self)@ }),
    {
        self.collected_data.clear();
        assert(self.collected_data.deep_view() =~= Seq::empty());
    }

    /// The collected records as documents, oldest first. A record that
    /// spells no document reads as `null`.
    pub fn read_data(&self) -> (documents: Vec<Value>)
        ensures
            documents@.len() == self@.records.len(),
            forall|i: int|
                0 <= i < self@.records.len() ==> #[trigger] documents@[i] == record_value(
                    self@.records[i],
                ),
    {
        deserialize_all(&self.collected_data)
    }

    /// The plan of an export of the collected records to `export_path`,
    /// or to the session's own file under `./storage` where no path is
    /// given: the file, its directory, and the records joined by newlines.
    pub fn export_jsonl_data(&self, export_path: Option<String>) -> (plan: ExportPlan)
        ensures
            plan.file@ == export_file(
                match export_path {
                    Some(p) => Some(p@),
                    None => None,
                },
                self@.url,
            ),
            plan.directory@ == parent_directory(plan.file@),
            plan.contents@ == joined_lines(self@.records),
    {
        plan_export(&self.collected_data, export_path, self.url.as_str())
    }

    /// Registers the task that relays page events to a listener, and gives
    /// the id under which `unsubscribe` finds it.
    pub fn subscribe(&mut self, handle: JoinHandle<()>) -> (id: u32)
        requires
            old(self).wf(),
            next_id(old(self)@.subscriptions) <= u32::MAX,
        ensures
            final(self).wf(),
            id == next_id(old(self)@.subscriptions),
            forall|i: int| 0 <= i < old(self)@.subscriptions.len() ==> old(self)@.subscriptions[i] < id,
            final(self)@ == (SessionView {
                subscriptions: apply(old(self)@.subscriptions, TableOp::Register),
                subscription_tasks: old(self)@.subscription_tasks.push(handle),
                ..old(self)@
            }),
    {
        let id = self.subscription_handles.allocate_next();
        self.subscription_handles.insert(id, handle);
        id
    }

    /// Cancels the subscription under `id`, or every subscription where no
    /// id is given. Tells whether there was anything to cancel.
    pub fn unsubscribe(&mut self, id: Option<u32>) -> (existed: bool)
        requires
            old(self).wf(),
        ensures
            final(self).wf(),
            existed == cancels_any(old(self)@.subscriptions, id),
            final(self)@ == (SessionView {
                subscriptions: apply(old(self)@.subscriptions, cancel_op(id)),
                subscription_tasks: cancelled_tasks(
                    old(self)@.subscriptions,
                    old(self)@.subscription_tasks,
                    id,
                ),
                ..old(self)@
            }),
    {
        match id {
            Some(one) => self.subscription_handles.cancel_one(one),
            None => self.subscription_handles.cancel_all(),
        }
    }

    /// Stops crawling: takes the session out of the background and cancels
    /// the detached crawl under `id`, or every detached crawl where no id
    /// is given. A session that is in the background has the engine's work
    /// on its url shut down as a whole first: the caller asks
    /// `running_in_background` and does so before it calls this. The report
    /// tells whether there was a task to cancel, and whether the session
    /// was in the background.
    pub fn stop(&mut self, id: Option<u32>) -> (report: StopReport)
        requires
            old(self).wf(),
        ensures
            final(self).wf(),
            report.shutdown == old(self)@.running_in_background,
            report.existed == cancels_any(old(self)@.crawls, id),
            final(self)@ == (SessionView {
                running_in_background: false,
                crawls: apply(old(self)@.crawls, cancel_op(id)),
                crawl_tasks: cancelled_tasks(old(self)@.crawls, old(self)@.crawl_tasks, id),
                ..old(self)@
            }),
    {
        let shutdown = self.running_in_background;
        self.running_in_background = false;
        let existed = match id {
            Some(one) => self.crawl_handles.cancel_one(one),
            None => self.crawl_handles.cancel_all(),
        };
        StopReport { existed, shutdown }
    }

    /// Plans a crawl. `on_page_event` tells whether a listener was given.
    /// A run in the background puts the session into the background.
    pub fn crawl(&mut self, on_page_event: bool, background: Option<bool>, headless: Option<bool>) -> (plan: RunPlan)
        ensures
            plan == crawl_plan(on_page_event, background, headless),
            final(self)@ == (SessionView {
                running_in_background: old(self)@.running_in_background || is_set(background),
                ..old(self)@
            }),
    {
        let detached = set(background);
        if detached {
            self.running_in_background = true;
        }
        RunPlan {
            call: if set(headless) {
                EngineCall::Crawl
            } else {
                EngineCall::CrawlRaw
            },
            detached,
            relay: relay(on_page_event),
        }
    }

    /// Plans a smart crawl. `on_page_event` tells whether a listener was
    /// given. A run in the background puts the session into the background.
    pub fn crawl_smart(&mut self, on_page_event: bool, background: Option<bool>) -> (plan: RunPlan)
        ensures
            plan == crawl_smart_plan(on_page_event, background),
            final(self)@ == (SessionView {
                running_in_background: old(self)@.running_in_background || is_set(background),
                ..old(self)@
            }),
    {
        let detached = set(background);
        if detached {
            self.running_in_background = true;
        }
        RunPlan {
            call: EngineCall::CrawlSmart,
            detached,
            relay: relay(on_page_event),
        }
    }

    /// Plans a scrape. `on_page_event` tells whether a listener was given.
    /// A run in the background puts the session into the background.
    pub fn scrape(&mut self, on_page_event: bool, background: Option<bool>, headless: Option<bool>) -> (plan: RunPlan)
        ensures
            plan == scrape_plan(on_page_event, background, headless),
            final(self)@ == (SessionView {
                running_in_background: old(self)@.running_in_background || is_set(background),
                ..old(self)@
            }),
    {
        let detached = set(background);
        if detached {
            self.running_in_background = true;
        }
        RunPlan {
            call: if set(headless) {
                EngineCall::Scrape
            } else {
                EngineCall::ScrapeRaw
            },
            detached,
            relay: relay(on_page_event),
        }
    }

    /// Takes over the tasks that the runtime has started for a plan: the
    /// task that drives the detached engine goes into the table of crawls,
    /// the task that relays the events into the table of subscriptions,
    /// each under the next id of its table. The tasks must be those that
    /// the plan calls for. Gives the id of each.
    pub fn settle(&mut self, plan: RunPlan, crawl: Option<JoinHandle<()>>, relay: Option<JoinHandle<()>>) -> (ids: (
        Option<u32>,
        Option<u32>,
    ))
        requires
            old(self).wf(),
            (crawl is Some) == plan.detached,
            (relay is Some) == (plan.relay == Relay::Registered),
            plan.detached ==> next_id(old(self)@.crawls) <= u32::MAX,
            plan.relay == Relay::Registered ==> next_id(old(self)@.subscriptions) <= u32::MAX,
        ensures
            final(self).wf(),
            final(self)@ == (SessionView {
                crawls: registered(old(self)@.crawls, plan.detached),
                crawl_tasks: registered_tasks(old(self)@.crawl_tasks, crawl),
                subscriptions: registered(
                    old(self)@.subscriptions,
                    plan.relay == Relay::Registered,
                ),
                subscription_tasks: registered_tasks(old(self)@.subscription_tasks, relay),
                ..old(self)@
            }),
            ids.0 == if plan.detached {
                Some(next_id(old(self)@.crawls) as u32)
            } else {
                None
            },
            ids.1 == if plan.relay == Relay::Registered {
                Some(next_id(old(self)@.subscriptions) as u32)
            } else {
                None
            },
    {
        let crawl_id = match crawl {
            Some(handle) => {
                let id = self.crawl_handles.allocate_next();
                self.crawl_handles.insert(id, handle);
                Some(id)
            },
            None => None,
        };
        let id = match relay {
            Some(handle) => {
                let id = self.subscription_handles.allocate_next();
                self.subscription_handles.insert(id, handle);
                Some(id)
            },
            None => None,
        };
        (crawl_id, id)
    }

    /// The runner of the session's recurring job, which has just been
    /// started, with the relay task where a listener was given.
    pub fn run_cron(&self, listener: Option<JoinHandle<()>>) -> (cron: Cron)
        ensures
            !cron.is_stopped(),
            cron.listener() == listener,
    {
        Cron::new(listener)
    }

    /// The record that the session hands out for a fetched document.
    pub fn page_record(&self, res: &FetchedPage) -> (page: NPage)
        ensures
            page.is_snapshot_of(*res, self@.raw_content),
    {
        NPage::new(res, self.raw_content)
    }

    /// The records of the documents that the engine has kept, in their
    /// order; none where it has kept none.
    pub fn get_pages(&self, pages: Option<&Vec<FetchedPage>>) -> (records: Vec<NPage>)
        ensures
            match pages {
                Some(kept) => records@.len() == kept@.len() && forall|i: int|
                    0 <= i < kept@.len() ==> (#[trigger] records@[i]).is_snapshot_of(
                        kept@[i],
                        self@.raw_content,
                    ),
                None => records@.len() == 0,
            },
    {
        let mut records: Vec<NPage> = Vec::new();
        match pages {
            Some(kept) => {
                let mut i: usize = 0;
                while i < kept.len()
                    invariant
                        i <= kept.len(),
                        records@.len() == i,
                        forall|j: int|
                            0 <= j < i ==> (#[trigger] records@[j]).is_snapshot_of(
                                kept@[j],
                                self@.raw_content,
                            ),
                    decreases kept.len() - i,
                {
                    records.push(self.page_record(&kept[i]));
                    i = i + 1;
                }
            },
            None => {},
        }
        records
    }

    /// The engine to go on with after a build: the one that was built, or,
    /// where the build failed, none, which leaves the engine in use.
    pub fn build<E>(&self, built: Result<E, E>) -> (engine: Option<E>)
        ensures
            engine == match built {
                Ok(fresh) => Some(fresh),
                Err(_) => None::<E>,
            },
    {
        match built {
            Ok(fresh) => Some(fresh),
            Err(_) => None,
        }
    }
}

/// Every record that a session hands out goes by the flag of the session,
/// which no method changes: in a raw session a record has an empty text and
/// the bytes of the body, in any other it has no bytes and the text that the
/// body spells.
pub proof fn lemma_records_follow_the_flag(website: Website, page: NPage, res: FetchedPage)
    requires
        page.is_snapshot_of(res, website@.raw_content),
    ensures
        website@.raw_content ==> page.content@.len() == 0 && page.raw_content is Some
            && page.raw_content->0@ == res.html@,
        !website@.raw_content ==> page.raw_content is None && page.content@ == utf8_lossy(res.html@),
{
    lemma_snapshot_is_raw_or_text(page, res, website@.raw_content);
}

} // verus!

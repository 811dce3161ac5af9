//! The run of an export: what is done next, and in what order.

use vstd::prelude::*;

use crate::attachments::{Flow, Outcome, Transfer};
#[allow(unused_imports)]
use crate::captions::announcement_html;
#[allow(unused_imports)]
use crate::database::{date_fits, is_local_date};
#[allow(unused_imports)]
use crate::html::{
    appends_view, chat_view, entry_appends, files_after, files_view, header_appends, is_closing,
    target_file, Config,
};
use crate::html::{Append, Conversation, HTML};
#[allow(unused_imports)]
use crate::messages::message_flow;
#[allow(unused_imports)]
use crate::pages::{all_appended, exported, known_files};
use crate::records::{Entry, Record};
use crate::tables::Message;
#[allow(unused_imports)]
use crate::text::optional;

verus! {

/// How far a run came.
#[derive(Clone, Copy, PartialEq, Eq, Structural)]
pub enum Stage {
    Begin,
    Running,
    Ended,
}

/// What happened.
pub enum Event<'e> {
    /// The export begins.
    Start,
    /// The next message was read.
    Read(&'e Message),
    /// A message names its conversation. Its file may be there already.
    Announcement {
        conversation: Option<&'e Conversation>,
        exists: bool,
        message: &'e Message,
        sender: &'e str,
    },
    /// All that is shown with a message was loaded, and these are the outcomes of the transfers
    /// that it waited for. Its file may be there already.
    Message {
        conversation: Option<&'e Conversation>,
        exists: bool,
        record: &'e Record,
        outcomes: &'e Vec<Outcome>,
    },
    /// The next message could not be read, for this reason.
    Unreadable(String),
    /// There is no more message.
    End,
}

/// What is to be done.
pub enum Action {
    /// Nothing: the next message is read.
    Nothing,
    /// The name of whoever sent the message is looked up, so that it can be announced.
    Announce,
    /// All that is shown with the message is loaded.
    Load,
    /// These texts are appended, and the next message is read.
    Append(Vec<Append>),
    /// A file is transferred, and the message rendered again.
    Transfer(Transfer<String>),
    /// The export has failed, for this reason.
    Stop(String),
    /// These texts are appended, and the export is done.
    Finish(Vec<Append>),
}

/// A run: its settings, the file of the orphaned messages, the files that are known, and how far it
/// came.
pub struct RunView {
    pub config: Config,
    pub orphaned: Seq<char>,
    pub files: Map<i32, Seq<char>>,
    pub stage: Stage,
}

/// What happened: of a message, what becomes of it; of a new name, when it was given, by whom, and
/// what it is; of what was loaded, what is rendered of it.
pub enum EventView {
    Start,
    Read(Entry),
    Announcement(Option<(i32, Seq<char>)>, bool, i64, Seq<char>, Option<Seq<char>>),
    Message(Option<(i32, Seq<char>)>, bool, Flow<(Seq<char>, nat), Seq<char>>),
    Unreadable(Seq<char>),
    End,
}

/// What is to be done, by what it appends.
pub enum ActionView {
    Nothing,
    Announce,
    Load,
    Append(Seq<(Seq<char>, Seq<char>)>),
    Transfer(Transfer<Seq<char>>),
    Stop(Seq<char>),
    Finish(Seq<(Seq<char>, Seq<char>)>),
}

/// What happened, as far as a run goes by it.
pub open spec fn event_view(config: Config, event: Event) -> EventView {
    match event {
        Event::Start => EventView::Start,
        Event::Read(message) => EventView::Read(message.entry_kind()),
        Event::Announcement { conversation, exists, message, sender } => EventView::Announcement(
            chat_view(conversation),
            exists,
            message.date,
            sender@,
            optional(message.group_title),
        ),
        Event::Message { conversation, exists, record, outcomes } => EventView::Message(
            chat_view(conversation),
            exists,
            message_flow(config, *record, 0, outcomes@, 0),
        ),
        Event::Unreadable(why) => EventView::Unreadable(why@),
        Event::End => EventView::End,
    }
}

impl View for Action {
    type V = ActionView;

    open spec fn view(&self) -> ActionView {
        match self {
            Action::Nothing => ActionView::Nothing,
            Action::Announce => ActionView::Announce,
            Action::Load => ActionView::Load,
            Action::Append(writes) => ActionView::Append(appends_view(writes@)),
            Action::Transfer(transfer) => ActionView::Transfer(transfer@),
            Action::Stop(why) => ActionView::Stop(why@),
            Action::Finish(writes) => ActionView::Finish(appends_view(writes@)),
        }
    }
}

/// Whether a message of a conversation, which was rendered as `text`, turns the run `before` into
/// `after`, and is answered by `action`.
pub open spec fn is_entry_step(
    before: RunView,
    chat: Option<(i32, Seq<char>)>,
    exists: bool,
    text: Seq<char>,
    after: RunView,
    action: ActionView,
) -> bool {
    &&& after == RunView { files: files_after(before.config, before.files, chat), ..before }
    &&& action == ActionView::Append(
        entry_appends(before.config, before.files, before.orphaned, chat, exists, text),
    )
}

/// Whether a new name of a conversation turns the run `before` into `after`, and is answered by
/// `action`: what is rendered tells of some local date of the message.
pub open spec fn is_announcement_step(
    before: RunView,
    chat: Option<(i32, Seq<char>)>,
    exists: bool,
    date: i64,
    sender: Seq<char>,
    title: Option<Seq<char>>,
    after: RunView,
    action: ActionView,
) -> bool {
    exists|date_text: Seq<char>|
        is_local_date(date_text, date, before.config.offset) && is_entry_step(
            before,
            chat,
            exists,
            #[trigger] announcement_html(date_text, sender, title),
            after,
            action,
        )
}

/// Whether an event turns the run `before` into `after`, and is answered by `action`. What happens
/// before the start or after the end changes nothing.
pub open spec fn is_step(
    before: RunView,
    event: EventView,
    after: RunView,
    action: ActionView,
) -> bool {
    let ended = RunView { stage: Stage::Ended, ..before };
    match (before.stage, event) {
        (Stage::Begin, EventView::Start) => after == (RunView {
            stage: Stage::Running,
            ..before
        }) && action == ActionView::Append(header_appends(before.orphaned, before.config.style@)),
        (Stage::Running, EventView::Read(entry)) => after == before && action == (match entry {
            Entry::Announcement => ActionView::Announce,
            Entry::Message => ActionView::Load,
            Entry::Reaction => ActionView::Nothing,
        }),
        (
            Stage::Running,
            EventView::Announcement(chat, exists, date, sender, title),
        ) => is_announcement_step(before, chat, exists, date, sender, title, after, action),
        (Stage::Running, EventView::Message(chat, exists, flow)) => match flow {
            Flow::Go((text, _)) => is_entry_step(before, chat, exists, text, after, action),
            Flow::Failed(why) => after == ended && action == ActionView::Stop(why),
            Flow::Wanted(transfer) => after == before && action == ActionView::Transfer(transfer),
        },
        (Stage::Running, EventView::Unreadable(why)) => after == ended && action
            == ActionView::Stop(why),
        (Stage::Running, EventView::End) => after == ended && (action matches ActionView::Finish(
            writes,
        ) && is_closing(before.files, before.orphaned, writes)),
        _ => after == before && action == ActionView::Nothing,
    }
}

/// The run of an export.
pub struct Export<'a> {
    pub html: HTML<'a>,
    pub stage: Stage,
}

impl<'a> View for Export<'a> {
    type V = RunView;

    open spec fn view(&self) -> RunView {
        RunView {
            config: *self.html.config,
            orphaned: self.html.orphaned@,
            files: files_view(self.html.files@),
            stage: self.stage,
        }
    }
}

impl<'a> Export<'a> {
    /// A run that has not begun.
    pub fn new(html: HTML<'a>) -> (export: Export<'a>)
        ensures
            export.html == html,
            export.stage == Stage::Begin,
    {
        Export { html, stage: Stage::Begin }
    }

    /// What is to be done after `event`: the headers of the page of orphaned messages come first,
    /// then each message in turn, and the footers last. The first failure ends the run.
    pub fn step(&mut self, event: Event) -> (action: Action)
        requires
            event matches Event::Read(message) ==> message.group_title is None
                ==> message.is_sound(),
            event matches Event::Announcement { message, .. } ==> date_fits(
                message.date,
                old(self).html.config.offset,
            ),
        ensures
            is_step(old(self)@, event_view(old(self)@.config, event), final(self)@, action@),
    {
        match self.stage {
            Stage::Begin => match event {
                Event::Start => {
                    self.stage = Stage::Running;
                    Action::Append(
                        HTML::write_headers(
                            self.html.orphaned.as_str(),
                            self.html.config.style.as_str(),
                        ),
                    )
                },
                _ => Action::Nothing,
            },
            Stage::Running => match event {
                Event::Start => Action::Nothing,
                Event::Read(message) => match message.entry() {
                    Entry::Announcement => Action::Announce,
                    Entry::Message => Action::Load,
                    Entry::Reaction => Action::Nothing,
                },
                Event::Announcement { conversation, exists, message, sender } => {
                    let text = self.html.format_annoucement(message, sender);
                    Action::Append(self.html.export_entry(conversation, exists, text))
                },
                Event::Message { conversation, exists, record, outcomes } => {
                    match self.html.format_message(record, 0, outcomes, 0) {
                        Flow::Go((text, _)) => Action::Append(
                            self.html.export_entry(conversation, exists, text),
                        ),
                        Flow::Failed(why) => {
                            self.stage = Stage::Ended;
                            Action::Stop(why)
                        },
                        Flow::Wanted(transfer) => Action::Transfer(transfer),
                    }
                },
                Event::Unreadable(why) => {
                    self.stage = Stage::Ended;
                    Action::Stop(why)
                },
                Event::End => {
                    self.stage = Stage::Ended;
                    Action::Finish(self.html.write_footers())
                },
            },
            Stage::Ended => Action::Nothing,
        }
    }
}

/// Whether `events` lead through `states`, from a run that has not begun and knows no file, and are
/// answered by `actions`.
pub open spec fn is_run(
    config: Config,
    orphaned: Seq<char>,
    states: Seq<RunView>,
    events: Seq<EventView>,
    actions: Seq<ActionView>,
) -> bool {
    &&& states.len() == events.len() + 1
    &&& actions.len() == events.len()
    &&& states[0] == (RunView { config, orphaned, files: Map::empty(), stage: Stage::Begin })
    &&& forall|i: int|
        0 <= i < events.len() ==> is_step(
            states[i],
            #[trigger] events[i],
            states[i + 1],
            actions[i],
        )
}

/// The settings and the file of the orphaned messages stay what they are.
proof fn lemma_settings(
    config: Config,
    orphaned: Seq<char>,
    states: Seq<RunView>,
    events: Seq<EventView>,
    actions: Seq<ActionView>,
    at: int,
)
    requires
        is_run(config, orphaned, states, events, actions),
        0 <= at <= events.len(),
    ensures
        states[at].config == config,
        states[at].orphaned == orphaned,
    decreases at,
{
    if at > 0 {
        lemma_settings(config, orphaned, states, events, actions, at - 1);
        assert(is_step(states[at - 1], events[at - 1], states[at - 1 + 1], actions[at - 1]));
    }
}

proof fn lemma_ended(
    config: Config,
    orphaned: Seq<char>,
    states: Seq<RunView>,
    events: Seq<EventView>,
    actions: Seq<ActionView>,
    from: int,
    until: int,
)
    requires
        is_run(config, orphaned, states, events, actions),
        0 <= from <= until <= events.len(),
        states[from].stage is Ended,
    ensures
        states[until].stage is Ended,
    decreases until - from,
{
    if from < until {
        lemma_ended(config, orphaned, states, events, actions, from, until - 1);
        assert(is_step(
            states[until - 1],
            events[until - 1],
            states[until - 1 + 1],
            actions[until - 1],
        ));
    }
}

/// Once the run failed or finished, nothing more is done. So a run that fails appends no footers.
pub proof fn law_nothing_follows_the_end(
    config: Config,
    orphaned: Seq<char>,
    states: Seq<RunView>,
    events: Seq<EventView>,
    actions: Seq<ActionView>,
    end: int,
    later: int,
)
    requires
        is_run(config, orphaned, states, events, actions),
        0 <= end < later < events.len(),
        actions[end] is Stop || actions[end] is Finish,
    ensures
        actions[later] is Nothing,
{
    assert(is_step(states[end], events[end], states[end + 1], actions[end]));
    lemma_ended(config, orphaned, states, events, actions, end + 1, later);
    assert(is_step(states[later], events[later], states[later + 1], actions[later]));
}

/// Whether the headers of the page of orphaned messages are what a run appended first, by its
/// first `count` actions.
pub open spec fn begins_with_headers(
    config: Config,
    orphaned: Seq<char>,
    actions: Seq<ActionView>,
    count: int,
) -> bool {
    exists|first: int|
        {
            &&& 0 <= first < count
            &&& #[trigger] actions[first] == ActionView::Append(
                header_appends(orphaned, config.style@),
            )
            &&& forall|i: int| 0 <= i < first ==> actions[i] is Nothing
        }
}

proof fn lemma_begun(
    config: Config,
    orphaned: Seq<char>,
    states: Seq<RunView>,
    events: Seq<EventView>,
    actions: Seq<ActionView>,
    count: int,
)
    requires
        is_run(config, orphaned, states, events, actions),
        0 <= count <= events.len(),
    ensures
        states[count].stage is Begin ==> forall|i: int| 0 <= i < count ==> actions[i] is Nothing,
        !(states[count].stage is Begin) ==> begins_with_headers(config, orphaned, actions, count),
    decreases count,
{
    if count > 0 {
        lemma_begun(config, orphaned, states, events, actions, count - 1);
        lemma_settings(config, orphaned, states, events, actions, count - 1);
        assert(is_step(
            states[count - 1],
            events[count - 1],
            states[count - 1 + 1],
            actions[count - 1],
        ));
        if !(states[count].stage is Begin) {
            if states[count - 1].stage is Begin {
                assert(actions[count - 1] == ActionView::Append(
                    header_appends(orphaned, config.style@),
                ));
            } else {
                let first = choose|first: int|
                    {
                        &&& 0 <= first < count - 1
                        &&& #[trigger] actions[first] == ActionView::Append(
                            header_appends(orphaned, config.style@),
                        )
                        &&& forall|i: int| 0 <= i < first ==> actions[i] is Nothing
                    };
                assert(actions[first] == ActionView::Append(
                    header_appends(orphaned, config.style@),
                ));
            }
        }
    }
}

/// The headers of the page of orphaned messages are what a run does first.
pub proof fn law_orphaned_headers_come_first(
    config: Config,
    orphaned: Seq<char>,
    states: Seq<RunView>,
    events: Seq<EventView>,
    actions: Seq<ActionView>,
    at: int,
)
    requires
        is_run(config, orphaned, states, events, actions),
        0 <= at < events.len(),
        !(actions[at] is Nothing),
    ensures
        begins_with_headers(config, orphaned, actions, at + 1),
{
    assert(is_step(states[at], events[at], states[at + 1], actions[at]));
    lemma_begun(config, orphaned, states, events, actions, at + 1);
}

/// The files on a disk once what the first `count` actions append was appended, but for footers.
pub open spec fn disk_after(
    disk: Map<Seq<char>, Seq<char>>,
    file_at: spec_fn(Seq<char>) -> Seq<char>,
    actions: Seq<ActionView>,
    count: nat,
) -> Map<Seq<char>, Seq<char>>
    decreases count,
{
    if count == 0 {
        disk
    } else {
        let before = disk_after(disk, file_at, actions, (count - 1) as nat);
        match actions[count - 1] {
            ActionView::Append(writes) => all_appended(before, file_at, writes),
            _ => before,
        }
    }
}

/// What the first `count` events of a run have rendered, each with its conversation: of a new name,
/// what the action appends; of a message, what was made of it.
pub open spec fn entries_of(
    states: Seq<RunView>,
    events: Seq<EventView>,
    actions: Seq<ActionView>,
    count: nat,
) -> Seq<(Option<(i32, Seq<char>)>, Seq<char>)>
    decreases count,
{
    if count == 0 {
        Seq::empty()
    } else {
        let before = entries_of(states, events, actions, (count - 1) as nat);
        if !(states[count - 1].stage is Running) {
            before
        } else {
            match events[count - 1] {
                EventView::Announcement(chat, _, _, _, _) => before.push(
                    (chat, actions[count - 1]->Append_0.last().1),
                ),
                EventView::Message(chat, _, Flow::Go((text, _))) => before.push((chat, text)),
                _ => before,
            }
        }
    }
}

/// Whether an event tells the truth of whether the file of its message is there.
pub open spec fn is_truthful(
    config: Config,
    orphaned: Seq<char>,
    file_at: spec_fn(Seq<char>) -> Seq<char>,
    disk: Map<Seq<char>, Seq<char>>,
    state: RunView,
    event: EventView,
) -> bool {
    match event {
        EventView::Announcement(chat, exists, _, _, _) => exists == disk.contains_key(
            file_at(target_file(config, state.files, orphaned, chat)),
        ),
        EventView::Message(chat, exists, _) => exists == disk.contains_key(
            file_at(target_file(config, state.files, orphaned, chat)),
        ),
        _ => true,
    }
}

/// While a run goes on, its actions leave on a disk what exporting the rendered messages in their
/// order does, where the events tell the truth of which files are there.
pub proof fn law_runs_export_their_messages(
    config: Config,
    orphaned: Seq<char>,
    file_at: spec_fn(Seq<char>) -> Seq<char>,
    disk: Map<Seq<char>, Seq<char>>,
    states: Seq<RunView>,
    events: Seq<EventView>,
    actions: Seq<ActionView>,
    count: nat,
)
    requires
        is_run(config, orphaned, states, events, actions),
        count <= events.len(),
        forall|i: int|
            0 <= i < count ==> is_truthful(
                config,
                orphaned,
                file_at,
                disk_after(disk, file_at, actions, i as nat),
                states[i],
                #[trigger] events[i],
            ),
    ensures
        states[count as int].files == known_files(
            config,
            entries_of(states, events, actions, count),
        ),
        states[count as int].stage is Begin ==> disk_after(disk, file_at, actions, count) == disk
            && entries_of(states, events, actions, count).len() == 0,
        !(states[count as int].stage is Begin) ==> disk_after(disk, file_at, actions, count)
            == exported(
            config,
            orphaned,
            file_at,
            disk,
            entries_of(states, events, actions, count),
        ),
    decreases count,
{
    if count > 0 {
        let last = (count - 1) as nat;
        law_runs_export_their_messages(
            config,
            orphaned,
            file_at,
            disk,
            states,
            events,
            actions,
            last,
        );
        lemma_settings(config, orphaned, states, events, actions, last as int);
        let before = entries_of(states, events, actions, last);
        let after = entries_of(states, events, actions, count);
        assert(is_step(
            states[last as int],
            events[last as int],
            states[last as int + 1],
            actions[last as int],
        ));
        assert(is_truthful(
            config,
            orphaned,
            file_at,
            disk_after(disk, file_at, actions, last),
            states[last as int],
            events[last as int],
        ));
        if after != before {
            assert(after.drop_last() == before);
        }
        if states[last as int].stage is Begin {
            assert(before == Seq::<(Option<(i32, Seq<char>)>, Seq<char>)>::empty());
        }
    }
}

/// While a run goes on, each event has its answer. A message that is read is announced, loaded or
/// left alone; a new name is told with who gave it and when; a message that was rendered is
/// appended to the page that it goes to; a transfer that is waited for is made; and a failure ends
/// the run for its reason. The end closes the pages.
pub proof fn law_running_runs_answer_events(
    before: RunView,
    event: EventView,
    after: RunView,
    action: ActionView,
)
    requires
        is_step(before, event, after, action),
        before.stage is Running,
    ensures
        after.config == before.config,
        after.orphaned == before.orphaned,
        match event {
            EventView::Start => after == before && action is Nothing,
            EventView::Read(entry) => {
                &&& after == before
                &&& entry is Announcement ==> action is Announce
                &&& entry is Message ==> action is Load
                &&& entry is Reaction ==> action is Nothing
            },
            EventView::Announcement(chat, exists, date, sender, title) => {
                &&& after.stage is Running
                &&& after.files == files_after(before.config, before.files, chat)
                &&& action matches ActionView::Append(writes) && writes.len() > 0
                    && writes.last().0 == target_file(
                    before.config,
                    before.files,
                    before.orphaned,
                    chat,
                ) && exists|date_text: Seq<char>|
                    is_local_date(date_text, date, before.config.offset) && writes.last().1
                        == #[trigger] announcement_html(date_text, sender, title)
            },
            EventView::Message(chat, exists, flow) => match flow {
                Flow::Go((text, _)) => {
                    &&& after.stage is Running
                    &&& after.files == files_after(before.config, before.files, chat)
                    &&& action matches ActionView::Append(writes) && writes.len() > 0
                        && writes.last() == (
                        target_file(before.config, before.files, before.orphaned, chat),
                        text,
                    )
                },
                Flow::Failed(why) => after.stage is Ended && after.files == before.files && action
                    == ActionView::Stop(why),
                Flow::Wanted(transfer) => after == before && action == ActionView::Transfer(
                    transfer,
                ),
            },
            EventView::Unreadable(why) => after.stage is Ended && after.files == before.files
                && action == ActionView::Stop(why),
            EventView::End => {
                &&& after.stage is Ended && after.files == before.files
                &&& action matches ActionView::Finish(writes) && is_closing(
                    before.files,
                    before.orphaned,
                    writes,
                )
            },
        },
{
    if let EventView::Announcement(chat, exists, date, sender, title) = event {
        let date_text = choose|date_text: Seq<char>|
            is_local_date(date_text, date, before.config.offset) && is_entry_step(
                before,
                chat,
                exists,
                #[trigger] announcement_html(date_text, sender, title),
                after,
                action,
            );
        let writes = action->Append_0;
        assert(writes.last().1 == announcement_html(date_text, sender, title));
    }
}

/// A run begins with its start, which opens the page of the orphaned messages. Before it, and once
/// the run ended, nothing is done whatever happens.
pub proof fn law_nothing_is_done_out_of_time(
    before: RunView,
    event: EventView,
    after: RunView,
    action: ActionView,
)
    requires
        is_step(before, event, after, action),
        !(before.stage is Running),
    ensures
        before.stage is Begin && event is Start ==> action == ActionView::Append(
            header_appends(before.orphaned, before.config.style@),
        ) && after.stage is Running && after.files == before.files && after.config == before.config
            && after.orphaned == before.orphaned,
        !(before.stage is Begin && event is Start) ==> action is Nothing && after == before,
{
}

/// What is exported of a message is the message on its own, rendered with all that came of its
/// transfers; a new name is told with the date, the sender and the title of the message that gives
/// it.
pub proof fn law_events_tell_of_their_message(
    config: Config,
    conversation: Option<&Conversation>,
    exists: bool,
    record: &Record,
    outcomes: &Vec<Outcome>,
    message: &Message,
    sender: &str,
)
    ensures
        event_view(config, Event::Message { conversation, exists, record, outcomes })
            == EventView::Message(
            chat_view(conversation),
            exists,
            message_flow(config, *record, 0, outcomes@, 0),
        ),
        event_view(config, Event::Announcement { conversation, exists, message, sender })
            == EventView::Announcement(
            chat_view(conversation),
            exists,
            message.date,
            sender@,
            match message.group_title {
                Some(title) => Some(title@),
                None => None,
            },
        ),
        event_view(config, Event::Read(message)) == EventView::Read(message.entry_kind()),
        chat_view(conversation) is Some <==> conversation is Some,
        conversation matches Some(chat) ==> chat_view(conversation) == Some(
            (chat.id, chat.filename@),
        ),
{
}

} // verus!

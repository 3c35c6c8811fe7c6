//! The chats of a session side by side: one view for each, and one of them
//! in front.

use crate::message::{local_now, text_option_view, Message, MessageType, MessageView};
use crate::text::str_eq;
use crate::session::{Command, CommandView};
use crate::tailview::{Area, TailView, TailViewModel, ViewOptions};
use vstd::prelude::*;

verus! {

/// The name of the chat that holds what the system reports.
pub const STATUS: &'static str = "Status";

/// Who the reports of the system are from.
pub const SYSTEM: &'static str = "[system]";

/// The kinds of chat, each with the name of the chat.
#[derive(Clone, Debug, PartialEq, Eq)]
pub enum ChatType {
    Status(String),
    Open(String),
    Personal(String),
}

/// A `ChatType` as plain text.
pub enum ChatTypeView {
    Status(Seq<char>),
    Open(Seq<char>),
    Personal(Seq<char>),
}

impl ChatTypeView {
    /// The name of the chat.
    pub open spec fn name(self) -> Seq<char> {
        match self {
            ChatTypeView::Status(name) => name,
            ChatTypeView::Open(name) => name,
            ChatTypeView::Personal(name) => name,
        }
    }
}

impl View for ChatType {
    type V = ChatTypeView;

    open spec fn view(&self) -> ChatTypeView {
        match *self {
            ChatType::Status(name) => ChatTypeView::Status(name@),
            ChatType::Open(name) => ChatTypeView::Open(name@),
            ChatType::Personal(name) => ChatTypeView::Personal(name@),
        }
    }
}

impl ChatType {
    /// The name of the chat.
    pub fn name(&self) -> (name: &str)
        ensures
            name@ == self@.name(),
    {
        match self {
            ChatType::Status(name) => name.as_str(),
            ChatType::Open(name) => name.as_str(),
            ChatType::Personal(name) => name.as_str(),
        }
    }

    /// Whether this is the same kind of chat under the same name.
    pub fn same(&self, other: &ChatType) -> (r: bool)
        ensures
            r == (self@ == other@),
    {
        match (self, other) {
            (ChatType::Status(a), ChatType::Status(b)) => str_eq(a.as_str(), b.as_str()),
            (ChatType::Open(a), ChatType::Open(b)) => str_eq(a.as_str(), b.as_str()),
            (ChatType::Personal(a), ChatType::Personal(b)) => str_eq(a.as_str(), b.as_str()),
            _ => false,
        }
    }
}

/// One chat as plain values: its view, its title, its kind, and whether it
/// holds lines that were not in front yet.
pub struct TabModel {
    pub view: TailViewModel,
    pub title: Seq<char>,
    pub tab_type: ChatTypeView,
    pub has_unread: bool,
}

impl TabModel {
    /// The new tab of a chat: an empty view under the name of the chat,
    /// logged or not.
    pub open spec fn fresh(tab_type: ChatTypeView, logging: bool) -> TabModel {
        TabModel {
            view: TailViewModel {
                lines: Seq::empty(),
                start: 0,
                max_start: 0,
                options: ViewOptions {
                    show_date: false,
                    show_arrivals: true,
                    show_departures: true,
                    autoscroll: true,
                },
                name: tab_type.name(),
                logging,
            },
            title: tab_type.name(),
            tab_type,
            has_unread: false,
        }
    }

    /// The tab after a message came in that was not seen.
    pub open spec fn add(self, message: MessageView) -> TabModel {
        TabModel {
            view: TailViewModel { lines: self.view.lines.push(message), ..self.view },
            has_unread: true,
            ..self
        }
    }

    /// The tab after a message was added that its reader wrote.
    pub open spec fn add_read(self, message: MessageView) -> TabModel {
        TabModel {
            view: TailViewModel { lines: self.view.lines.push(message), ..self.view },
            ..self
        }
    }

    /// What is written to the log of the tab for a message: its text, where
    /// the tab is logged and the message is not hidden.
    pub open spec fn logged(self, message: MessageView) -> Option<Seq<char>> {
        if self.view.logging {
            message.render(self.view.options)
        } else {
            None
        }
    }

    /// The command that sends a text to the chat of the tab: to the user of
    /// a personal chat, to the group from any other.
    pub open spec fn command(self, text: Seq<char>) -> CommandView {
        match self.tab_type {
            ChatTypeView::Personal(user) => CommandView::Personal(user, text),
            _ => CommandView::Open(text),
        }
    }
}

/// One chat with its view.
#[derive(Clone, Debug)]
struct Tab {
    view: TailView,
    title: String,
    tab_type: ChatType,
    has_unread: bool,
}

impl View for Tab {
    type V = TabModel;

    closed spec fn view(&self) -> TabModel {
        TabModel {
            view: self.view@,
            title: self.title@,
            tab_type: self.tab_type@,
            has_unread: self.has_unread,
        }
    }
}

impl Tab {
    fn new(tab_type: ChatType, logging: bool) -> (tab: Tab)
        ensures
            tab@ == TabModel::fresh(tab_type@, logging),
    {
        let mut view = TailView::new(tab_type.name());
        if logging {
            view.enable_logging();
        }
        let title = tab_type.name().to_owned();
        Tab { view, title, tab_type, has_unread: false }
    }

    fn add(&mut self, message: Message) -> (logged: Option<String>)
        ensures
            final(self)@ == old(self)@.add(message@),
            text_option_view(logged) == old(self)@.logged(message@),
    {
        let logged = self.view.add(message);
        self.has_unread = true;
        logged
    }

    fn add_read(&mut self, message: Message) -> (logged: Option<String>)
        ensures
            final(self)@ == old(self)@.add_read(message@),
            text_option_view(logged) == old(self)@.logged(message@),
    {
        self.view.add(message)
    }

    fn command(&self, msg: &str) -> (command: Command)
        ensures
            command@ == self@.command(msg@),
    {
        match &self.tab_type {
            ChatType::Personal(user) => Command::Personal(user.clone(), msg.to_owned()),
            _ => Command::Open(msg.to_owned()),
        }
    }
}

/// The chats side by side as plain values: the tabs in the order in which
/// they were opened, the index of the tab in front, and whether new chats
/// are logged.
pub struct TabsModel {
    pub tabs: Seq<TabModel>,
    pub current_tab: int,
    pub log_default: bool,
}

/// What came of adding a message: the index of the tab that took it, and
/// the text to write to the log of that tab, if any.
#[derive(Clone, Debug, PartialEq, Eq)]
pub struct Added {
    pub tab: usize,
    pub logged: Option<String>,
}

impl TabsModel {
    /// Whether there is a tab in front, and the first tab is that of the
    /// system.
    pub open spec fn wf(self) -> bool {
        &&& 0 <= self.current_tab < self.tabs.len()
        &&& self.tabs[0].tab_type == ChatTypeView::Status(STATUS@)
    }

    /// Whether tab `i` is the first tab of the given chat.
    pub open spec fn is_first(self, to: ChatTypeView, i: int) -> bool {
        &&& 0 <= i < self.tabs.len()
        &&& self.tabs[i].tab_type == to
        &&& forall|j: int| 0 <= j < i ==> (#[trigger] self.tabs[j]).tab_type != to
    }

    /// Whether no tab is of the given chat.
    pub open spec fn lacks(self, to: ChatTypeView) -> bool {
        forall|j: int| 0 <= j < self.tabs.len() ==> (#[trigger] self.tabs[j]).tab_type != to
    }

    /// The tabs after tab `i` took a message that was not seen.
    pub open spec fn add_at(self, i: int, message: MessageView) -> TabsModel {
        TabsModel { tabs: self.tabs.update(i, self.tabs[i].add(message)), ..self }
    }

    /// The tabs after a new tab was opened for a chat with its first
    /// message. A new chat of the group comes to the front.
    pub open spec fn open_with(self, to: ChatTypeView, message: MessageView, logging: bool) -> TabsModel {
        TabsModel {
            tabs: self.tabs.push(TabModel::fresh(to, logging).add(message)),
            current_tab: if to is Open {
                self.tabs.len() as int
            } else {
                self.current_tab
            },
            ..self
        }
    }

    /// The tabs after the next tab came to the front; behind the last
    /// comes the first.
    pub open spec fn next(self) -> TabsModel {
        TabsModel {
            current_tab: if self.tabs.len() > 0 {
                (self.current_tab + 1) % (self.tabs.len() as int)
            } else {
                0
            },
            ..self
        }
    }

    /// The tabs after the tab before came to the front; before the first
    /// comes the last.
    pub open spec fn previous(self) -> TabsModel {
        TabsModel {
            current_tab: if self.current_tab > 0 {
                self.current_tab - 1
            } else {
                self.tabs.len() - 1
            },
            ..self
        }
    }

    /// The tabs with the view of the tab in front replaced.
    pub open spec fn with_view(self, view: TailViewModel) -> TabsModel {
        TabsModel {
            tabs: self.tabs.update(
                self.current_tab,
                TabModel { view, ..self.tabs[self.current_tab] },
            ),
            ..self
        }
    }

    /// The view of the tab in front.
    pub open spec fn front(self) -> TailViewModel {
        self.tabs[self.current_tab].view
    }
}

/// The chats of a session side by side.
#[derive(Clone, Debug)]
pub struct Tabs {
    tabs: Vec<Tab>,
    current_tab: usize,
    log_default: bool,
}

/// The tabs as plain values.
spec fn tabs_of(tabs: Seq<Tab>) -> Seq<TabModel> {
    tabs.map_values(|tab: Tab| tab@)
}

impl View for Tabs {
    type V = TabsModel;

    closed spec fn view(&self) -> TabsModel {
        TabsModel {
            tabs: tabs_of(self.tabs@),
            current_tab: self.current_tab as int,
            log_default: self.log_default,
        }
    }
}

impl Tabs {
    /// Whether the tabs are well formed. All tabs that this module hands
    /// out are so.
    pub open spec fn wf(&self) -> bool {
        self@.wf()
    }

    /// The tabs of a new session: that of the system alone.
    pub fn new() -> (tabs: Tabs)
        ensures
            tabs.wf(),
            tabs@ == (TabsModel {
                tabs: seq![TabModel::fresh(ChatTypeView::Status(STATUS@), false)],
                current_tab: 0,
                log_default: false,
            }),
    {
        let mut v: Vec<Tab> = Vec::new();
        v.push(Tab::new(ChatType::Status(STATUS.to_owned()), false));
        let tabs = Tabs { tabs: v, current_tab: 0, log_default: false };
        assert(tabs@.tabs =~= seq![TabModel::fresh(ChatTypeView::Status(STATUS@), false)]);
        tabs
    }

    /// Says whether new chats are to be logged.
    pub fn set_logging(&mut self, default: bool)
        ensures
            final(self)@ == (TabsModel { log_default: default, ..old(self)@ }),
    {
        self.log_default = default;
    }

    /// Whether new chats are to be logged.
    pub fn log_default(&self) -> (default: bool)
        ensures
            default == self@.log_default,
    {
        self.log_default
    }

    /// The number of tabs.
    pub fn len(&self) -> (n: usize)
        ensures
            n == self@.tabs.len(),
    {
        self.tabs.len()
    }

    /// The index of the tab in front.
    pub fn current(&self) -> (i: usize)
        ensures
            i == self@.current_tab,
    {
        self.current_tab
    }

    /// The index of the first tab of the given chat, if there is one.
    pub fn find(&self, to: &ChatType) -> (r: Option<usize>)
        ensures
            match r {
                Some(i) => self@.is_first(to@, i as int),
                None => self@.lacks(to@),
            },
    {
        let mut i: usize = 0;
        while i < self.tabs.len()
            invariant
                i <= self.tabs@.len(),
                forall|j: int| 0 <= j < i ==> (#[trigger] self@.tabs[j]).tab_type != to@,
            decreases self.tabs@.len() - i,
        {
            if self.tabs[i].tab_type.same(to) {
                assert(self@.tabs[i as int].tab_type == to@);
                return Some(i);
            }
            assert(self@.tabs[i as int].tab_type != to@);
            i += 1;
        }
        None
    }

    /// Adds a message to the chat `to`. It goes to the first tab of that
    /// chat; where there is none, a new tab is opened for it, which is
    /// logged where `log_opened` says that a log stands open for it, and
    /// which comes to the front where it is a chat of the group.
    pub fn add_message(&mut self, to: ChatType, msg: Message, log_opened: bool) -> (added: Added)
        requires
            old(self).wf(),
        ensures
            final(self).wf(),
            old(self)@.lacks(to@) ==> {
                &&& final(self)@ == old(self)@.open_with(to@, msg@, log_opened)
                &&& added.tab == old(self)@.tabs.len()
                &&& text_option_view(added.logged) == TabModel::fresh(to@, log_opened).logged(msg@)
            },
            !old(self)@.lacks(to@) ==> {
                &&& old(self)@.is_first(to@, added.tab as int)
                &&& final(self)@ == old(self)@.add_at(added.tab as int, msg@)
                &&& text_option_view(added.logged) == old(self)@.tabs[added.tab as int].logged(
                    msg@,
                )
            },
    {
        match self.find(&to) {
            Some(i) => {
                let ghost before = self.tabs@;
                assert(self@.tabs[i as int].tab_type == to@);
                let logged = self.tabs[i].add(msg);
                assert(tabs_of(self.tabs@) =~= tabs_of(before).update(
                    i as int,
                    tabs_of(before)[i as int].add(msg@),
                ));
                Added { tab: i, logged }
            },
            None => {
                let front = matches!(to, ChatType::Open(_));
                let ghost before = self.tabs@;
                let mut newtab = Tab::new(to, log_opened);
                let logged = newtab.add(msg);
                self.tabs.push(newtab);
                assert(tabs_of(self.tabs@) =~= tabs_of(before).push(newtab@));
                let tab = self.tabs.len() - 1;
                if front {
                    self.current_tab = tab;
                }
                Added { tab, logged }
            },
        }
    }

    /// The command that sends a text to the chat in front.
    pub fn command_for_current(&self, msg: &str) -> (command: Command)
        requires
            self.wf(),
        ensures
            command@ == self@.tabs[self@.current_tab].command(msg@),
    {
        self.tabs[self.current_tab].command(msg)
    }

    /// Adds a message that the reader wrote to the chat in front. Returns
    /// the text to write to the log of that chat, if any.
    pub fn add_current(&mut self, msg: Message) -> (logged: Option<String>)
        requires
            old(self).wf(),
        ensures
            final(self).wf(),
            final(self)@ == (TabsModel {
                tabs: old(self)@.tabs.update(
                    old(self)@.current_tab,
                    old(self)@.tabs[old(self)@.current_tab].add_read(msg@),
                ),
                ..old(self)@
            }),
            text_option_view(logged) == old(self)@.tabs[old(self)@.current_tab].logged(msg@),
    {
        let ghost before = self.tabs@;
        let i = self.current_tab;
        let logged = self.tabs[i].add_read(msg);
        assert(tabs_of(self.tabs@) =~= tabs_of(before).update(
            i as int,
            tabs_of(before)[i as int].add_read(msg@),
        ));
        logged
    }

    /// Brings the first tab of the given chat to the front, if there is
    /// one.
    pub fn switch_to(&mut self, to: ChatType)
        requires
            old(self).wf(),
        ensures
            final(self).wf(),
            final(self)@.tabs == old(self)@.tabs,
            final(self)@.log_default == old(self)@.log_default,
            if old(self)@.lacks(to@) {
                final(self)@.current_tab == old(self)@.current_tab
            } else {
                old(self)@.is_first(to@, final(self)@.current_tab)
            },
    {
        match self.find(&to) {
            Some(n) => {
                self.current_tab = n;
            },
            None => {},
        }
    }

    /// Adds a report of the system, as of now, to the tab of the system.
    /// Returns what `add_message` returns.
    pub fn add_status(&mut self, msg: String) -> (added: Added)
        requires
            old(self).wf(),
        ensures
            final(self).wf(),
            exists|m: MessageView|
                {
                    &&& m.message_type == MessageType::Status
                    &&& m.from == SYSTEM@
                    &&& m.body == msg@
                    &&& #[trigger] old(self)@.add_at(0, m) == final(self)@
                    &&& text_option_view(added.logged) == old(self)@.tabs[0].logged(m)
                },
            added.tab == 0,
    {
        let message = Message::new(local_now(), MessageType::Status, SYSTEM.to_owned(), msg);
        assert(self@.is_first(ChatTypeView::Status(STATUS@), 0));
        let added = self.add_message(ChatType::Status(STATUS.to_owned()), message, false);
        assert(old(self)@.add_at(0, message@) == self@);
        added
    }

    /// The titles to draw, those of the tabs in their order, each with the
    /// mark of lines that were not in front yet.
    pub fn draw_titles(&self) -> (titles: Vec<(String, bool)>)
        ensures
            titles@.len() == self@.tabs.len(),
            forall|i: int|
                0 <= i < titles@.len() ==> (#[trigger] titles@[i]).0@ == self@.tabs[i].title
                    && titles@[i].1 == self@.tabs[i].has_unread,
    {
        let mut titles: Vec<(String, bool)> = Vec::new();
        let mut i: usize = 0;
        while i < self.tabs.len()
            invariant
                i <= self.tabs@.len(),
                titles@.len() == i,
                forall|j: int|
                    0 <= j < i ==> (#[trigger] titles@[j]).0@ == self@.tabs[j].title && titles@[j].1
                        == self@.tabs[j].has_unread,
            decreases self.tabs@.len() - i,
        {
            titles.push((self.tabs[i].title.clone(), self.tabs[i].has_unread));
            i += 1;
        }
        titles
    }

    /// Fits the tab in front into the area and gives the texts to draw in
    /// it. All its lines have been in front now.
    pub fn draw_current(&mut self, area: Area) -> (texts: Vec<String>)
        requires
            old(self).wf(),
        ensures
            final(self).wf(),
            final(self)@ == (TabsModel {
                tabs: old(self)@.tabs.update(
                    old(self)@.current_tab,
                    TabModel {
                        view: old(self)@.front().fit(area),
                        has_unread: false,
                        ..old(self)@.tabs[old(self)@.current_tab]
                    },
                ),
                ..old(self)@
            }),
            texts.deep_view() == old(self)@.front().fit(area).drawn(),
    {
        let ghost before = self.tabs@;
        let i = self.current_tab;
        self.tabs[i].has_unread = false;
        let texts = self.tabs[i].view.draw(area);
        assert(tabs_of(self.tabs@) =~= tabs_of(before).update(
            i as int,
            TabModel {
                view: tabs_of(before)[i as int].view.fit(area),
                has_unread: false,
                ..tabs_of(before)[i as int]
            },
        ));
        texts
    }

    /// Scrolls the tab in front up.
    pub fn scroll_up(&mut self, area: Area)
        requires
            old(self).wf(),
        ensures
            final(self).wf(),
            final(self)@ == old(self)@.with_view(old(self)@.front().scroll_up(area.height)),
    {
        let ghost before = self.tabs@;
        let i = self.current_tab;
        self.tabs[i].view.scroll_up(area);
        assert(tabs_of(self.tabs@) =~= tabs_of(before).update(
            i as int,
            TabModel {
                view: tabs_of(before)[i as int].view.scroll_up(area.height),
                ..tabs_of(before)[i as int]
            },
        ));
    }

    /// Scrolls the tab in front down.
    pub fn scroll_down(&mut self, area: Area)
        requires
            old(self).wf(),
        ensures
            final(self).wf(),
            final(self)@ == old(self)@.with_view(old(self)@.front().scroll_down(area.height)),
    {
        let ghost before = self.tabs@;
        let i = self.current_tab;
        self.tabs[i].view.scroll_down(area);
        assert(tabs_of(self.tabs@) =~= tabs_of(before).update(
            i as int,
            TabModel {
                view: tabs_of(before)[i as int].view.scroll_down(area.height),
                ..tabs_of(before)[i as int]
            },
        ));
    }

    /// Brings the next tab to the front.
    pub fn next(&mut self)
        requires
            old(self).wf(),
        ensures
            final(self).wf(),
            final(self)@ == old(self)@.next(),
    {
        let last = self.tabs.len() - 1;
        self.current_tab = if self.current_tab < last {
            self.current_tab + 1
        } else {
            0
        };
        proof {
            let n = old(self)@.tabs.len() as int;
            let c = old(self)@.current_tab;
            if c + 1 < n {
                assert((c + 1) % n == c + 1) by (nonlinear_arith)
                    requires
                        0 <= c + 1 < n,
                ;
            } else {
                assert((c + 1) % n == 0) by (nonlinear_arith)
                    requires
                        c + 1 == n,
                        n > 0,
                ;
            }
        }
    }

    /// Brings the tab before to the front.
    pub fn previous(&mut self)
        requires
            old(self).wf(),
        ensures
            final(self).wf(),
            final(self)@ == old(self)@.previous(),
    {
        self.current_tab = if self.current_tab > 0 {
            self.current_tab - 1
        } else {
            self.tabs.len() - 1
        };
    }

    /// Shows the day with the time in the tab in front, or no longer.
    pub fn toggle_show_date(&mut self)
        requires
            old(self).wf(),
        ensures
            final(self).wf(),
            final(self)@ == old(self)@.with_view(
                TailViewModel {
                    options: ViewOptions {
                        show_date: !old(self)@.front().options.show_date,
                        ..old(self)@.front().options
                    },
                    ..old(self)@.front()
                },
            ),
    {
        let ghost before = self.tabs@;
        let i = self.current_tab;
        self.tabs[i].view.toggle_show_date();
        assert(tabs_of(self.tabs@) =~= tabs_of(before).update(i as int, self.tabs@[i as int]@));
    }

    /// Shows arrivals and departures in the tab in front, or no longer:
    /// each of the two options is turned over.
    pub fn toggle_show_arrivals_departures(&mut self)
        requires
            old(self).wf(),
        ensures
            final(self).wf(),
            final(self)@ == old(self)@.with_view(
                TailViewModel {
                    options: ViewOptions {
                        show_arrivals: !old(self)@.front().options.show_arrivals,
                        show_departures: !old(self)@.front().options.show_departures,
                        ..old(self)@.front().options
                    },
                    ..old(self)@.front()
                },
            ),
    {
        let ghost before = self.tabs@;
        let i = self.current_tab;
        self.tabs[i].view.toggle_show_arrivals();
        self.tabs[i].view.toggle_show_departures();
        assert(tabs_of(self.tabs@) =~= tabs_of(before).update(i as int, self.tabs@[i as int]@));
    }

    /// Lets the tab in front scroll by itself, or no longer.
    pub fn toggle_autoscroll(&mut self)
        requires
            old(self).wf(),
        ensures
            final(self).wf(),
            final(self)@ == old(self)@.with_view(
                TailViewModel {
                    options: ViewOptions {
                        autoscroll: !old(self)@.front().options.autoscroll,
                        ..old(self)@.front().options
                    },
                    ..old(self)@.front()
                },
            ),
    {
        let ghost before = self.tabs@;
        let i = self.current_tab;
        self.tabs[i].view.toggle_autoscroll();
        assert(tabs_of(self.tabs@) =~= tabs_of(before).update(i as int, self.tabs@[i as int]@));
    }

    /// Stops logging the tab in front where it is logged. Returns whether
    /// it was not: then a log is to be opened for it, and `enable_logging`
    /// to be called when it stands open.
    pub fn toggle_logging(&mut self) -> (open: bool)
        requires
            old(self).wf(),
        ensures
            final(self).wf(),
            open == !old(self)@.front().logging,
            final(self)@ == old(self)@.with_view(
                TailViewModel { logging: false, ..old(self)@.front() },
            ),
    {
        let ghost before = self.tabs@;
        let i = self.current_tab;
        let open = self.tabs[i].view.toggle_logging();
        assert(tabs_of(self.tabs@) =~= tabs_of(before).update(i as int, self.tabs@[i as int]@));
        open
    }

    /// Takes note that a log stands open for the tab in front.
    pub fn enable_logging(&mut self)
        requires
            old(self).wf(),
        ensures
            final(self).wf(),
            final(self)@ == old(self)@.with_view(
                TailViewModel { logging: true, ..old(self)@.front() },
            ),
    {
        let ghost before = self.tabs@;
        let i = self.current_tab;
        self.tabs[i].view.enable_logging();
        assert(tabs_of(self.tabs@) =~= tabs_of(before).update(i as int, self.tabs@[i as int]@));
    }

    /// The marks of the tab in front.
    pub fn status_line(&self) -> (s: String)
        requires
            self.wf(),
        ensures
            s@ == self@.front().status_line(),
    {
        self.tabs[self.current_tab].view.status_line()
    }
}

} // verus!
